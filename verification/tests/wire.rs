use hdn_data_server::fault::Fault;
use hdn_data_server::message::data_server::request;
use hdn_data_server::message::data_server::response;
use hdn_data_server::message::data_server::Request;
use hdn_data_server::message::data_server::Response;
use hdn_data_server::wire::read_key;
use hdn_data_server::wire::read_length_prefixed;
use hdn_data_server::wire::read_index;
use hdn_data_server::wire::read_length;
use hdn_data_server::wire::read_request;
use hdn_data_server::wire::read_response;
use hdn_data_server::wire::write_length_prefixed;
use hdn_data_server::wire::write_request;
use hdn_data_server::wire::write_response;
use hdn_data_server::wire::write_varint;
use hdn_data_server::wire::LOAD_INDEX;
use hdn_data_server::wire::STORE_INDEX;

fn load(key: &str) -> Request {
    Request::Load(request::Load { key: key.to_string() })
}

fn store(key: &str, hash: &[u8]) -> Request {
    Request::Store(request::Store { key: key.to_string(), hash: hash.to_vec() })
}

fn found(hash: &[u8]) -> Response {
    Response::Load(response::Load { hash: Some(hash.to_vec()) })
}

fn missing() -> Response {
    Response::Load(response::Load { hash: None })
}

fn stored(success: bool) -> Response {
    Response::Store(response::Store { success })
}

fn varint_of(n: u64) -> Vec<u8> {
    let mut out = Vec::new();
    write_varint(&mut out, n);
    out
}

#[test]
fn varint_of_small_numbers_is_one_byte() {
    assert_eq!(varint_of(0), vec![0x00]);
    assert_eq!(varint_of(1), vec![0x01]);
    assert_eq!(varint_of(127), vec![0x7f]);
}

#[test]
fn varint_of_larger_numbers_sets_continuation_bits() {
    assert_eq!(varint_of(128), vec![0x80, 0x01]);
    assert_eq!(varint_of(300), vec![0xac, 0x02]);
    assert_eq!(varint_of(16383), vec![0xff, 0x7f]);
    assert_eq!(varint_of(16384), vec![0x80, 0x80, 0x01]);
    assert_eq!(
        varint_of(u64::MAX),
        vec![0xff, 0xff, 0xff, 0xff, 0xff, 0xff, 0xff, 0xff, 0xff, 0x01]
    );
}

#[test]
fn varint_is_appended_to_what_is_there() {
    let mut out = vec![9u8, 8];
    write_varint(&mut out, 300);
    assert_eq!(out, vec![9, 8, 0xac, 0x02]);
}

#[test]
fn varint_agrees_with_postcard() {
    for n in [0u64, 1, 127, 128, 255, 300, 16383, 16384, 1 << 32, u64::MAX] {
        assert_eq!(varint_of(n), postcard::to_stdvec(&n).unwrap());
    }
}

#[test]
fn read_length_inverts_write_varint() {
    for n in [0u64, 1, 127, 128, 300, 16384, u32::MAX as u64, 1 << 40, u64::MAX] {
        let mut bytes = varint_of(n);
        let used = bytes.len();
        bytes.push(0x55);
        assert_eq!(read_length(&bytes), Some((n, used)));
    }
}

#[test]
fn read_index_inverts_write_varint() {
    for n in [0u32, 1, 127, 128, 300, 16384, u32::MAX] {
        let mut bytes = varint_of(n as u64);
        let used = bytes.len();
        bytes.push(0xaa);
        assert_eq!(read_index(&bytes), Some((n, used)));
    }
}

#[test]
fn varints_may_take_more_bytes_than_needed() {
    assert_eq!(read_index(&[0x80, 0x00]), Some((0, 2)));
    assert_eq!(read_index(&[0x81, 0x80, 0x00]), Some((1, 3)));
    assert_eq!(read_length(&[0x85, 0x80, 0x80, 0x00, 0xff]), Some((5, 4)));
}

#[test]
fn varints_that_end_early_are_rejected() {
    assert_eq!(read_index(&[]), None);
    assert_eq!(read_index(&[0x80]), None);
    assert_eq!(read_length(&[]), None);
    assert_eq!(read_length(&[0xff, 0xff]), None);
}

#[test]
fn index_is_a_32_bit_number() {
    assert_eq!(read_index(&[0xff, 0xff, 0xff, 0xff, 0x0f]), Some((u32::MAX, 5)));
    // One bit more in the fifth byte.
    assert_eq!(read_index(&[0xff, 0xff, 0xff, 0xff, 0x10]), None);
    // A sixth byte.
    assert_eq!(read_index(&[0x80, 0x80, 0x80, 0x80, 0x80, 0x00]), None);
}

#[test]
fn length_is_a_64_bit_number() {
    let mut ten = vec![0xffu8; 9];
    ten.push(0x01);
    assert_eq!(read_length(&ten), Some((u64::MAX, 10)));
    // One bit more in the tenth byte.
    ten[9] = 0x02;
    assert_eq!(read_length(&ten), None);
    // An eleventh byte.
    let mut eleven = vec![0x80u8; 10];
    eleven.push(0x00);
    assert_eq!(read_length(&eleven), None);
    // Six bytes are no index, but a length.
    assert_eq!(read_length(&[0x80, 0x80, 0x80, 0x80, 0x80, 0x01]), Some((1 << 35, 6)));
}

#[test]
fn read_index_agrees_with_postcard() {
    let cases: [&[u8]; 8] = [
        &[0x00],
        &[0x80, 0x00],
        &[0xac, 0x02],
        &[0xff, 0xff, 0xff, 0xff, 0x0f],
        &[0xff, 0xff, 0xff, 0xff, 0x10],
        &[0x80, 0x80, 0x80, 0x80, 0x80, 0x00],
        &[0x80],
        &[],
    ];
    for bytes in cases {
        let ours = read_index(bytes).map(|(n, _)| n);
        let theirs = postcard::from_bytes::<u32>(bytes).ok();
        assert_eq!(ours, theirs);
    }
}

#[test]
fn read_length_agrees_with_postcard() {
    let cases: [&[u8]; 7] = [
        &[0x00],
        &[0x80, 0x80, 0x80, 0x80, 0x80, 0x01],
        &[0xff, 0xff, 0xff, 0xff, 0xff, 0xff, 0xff, 0xff, 0xff, 0x01],
        &[0xff, 0xff, 0xff, 0xff, 0xff, 0xff, 0xff, 0xff, 0xff, 0x02],
        &[0x80, 0x80, 0x80, 0x80, 0x80, 0x80, 0x80, 0x80, 0x80, 0x80, 0x00],
        &[0xff],
        &[],
    ];
    for bytes in cases {
        let ours = read_length(bytes).map(|(n, _)| n);
        let theirs = postcard::from_bytes::<u64>(bytes).ok();
        assert_eq!(ours, theirs);
    }
}

#[test]
fn variant_indices_are_zero_and_one() {
    assert_eq!(LOAD_INDEX, 0);
    assert_eq!(STORE_INDEX, 1);
}

#[test]
fn length_prefixed_bytes_are_written_and_read_back() {
    let mut out = vec![0xeeu8];
    write_length_prefixed(&mut out, &[7, 0, 9]);
    assert_eq!(out, vec![0xee, 3, 7, 0, 9]);
    let content: &[u8] = &[7, 0, 9];
    assert_eq!(read_length_prefixed(&out[1..]), Some((content, 4)));
    let mut empty = Vec::new();
    write_length_prefixed(&mut empty, &[]);
    assert_eq!(empty, vec![0]);
    let nothing: &[u8] = &[];
    assert_eq!(read_length_prefixed(&empty), Some((nothing, 1)));
}

#[test]
fn length_prefix_of_300_bytes_takes_two_bytes() {
    let content = vec![0x41u8; 300];
    let mut out = Vec::new();
    write_length_prefixed(&mut out, &content);
    assert_eq!(out.len(), 302);
    assert_eq!(&out[..2], &[0xac, 0x02]);
    out.push(0x99);
    assert_eq!(read_length_prefixed(&out), Some((content.as_slice(), 302)));
}

#[test]
fn read_length_prefixed_rejects_a_length_beyond_the_end() {
    assert_eq!(read_length_prefixed(&[3, 1, 2]), None);
    assert_eq!(read_length_prefixed(&[]), None);
    let mut huge = vec![0xffu8; 9];
    huge.push(0x01);
    huge.push(0x00);
    assert_eq!(read_length_prefixed(&huge), None);
}

#[test]
fn read_key_wants_valid_utf8() {
    assert_eq!(read_key(&[2, b'o', b'k', 9]), Some(("ok".to_string(), 3)));
    assert_eq!(read_key(&[2, 0xc3, 0xa9]), Some(("\u{e9}".to_string(), 3)));
    assert_eq!(read_key(&[2, 0xc3, 0x28]), None);
    assert_eq!(read_key(&[1, 0xff]), None);
    assert_eq!(read_key(&[0]), Some((String::new(), 1)));
}

#[test]
fn load_request_is_index_and_key() {
    assert_eq!(write_request(&load("alpha")), vec![0, 5, b'a', b'l', b'p', b'h', b'a']);
    assert_eq!(write_request(&load("")), vec![0, 0]);
}

#[test]
fn store_request_is_index_key_and_hash() {
    assert_eq!(
        write_request(&store("alpha", &[0x01, 0x02])),
        vec![1, 5, b'a', b'l', b'p', b'h', b'a', 2, 0x01, 0x02]
    );
    assert_eq!(write_request(&store("", &[])), vec![1, 0, 0]);
}

#[test]
fn requests_are_encoded_as_postcard_encodes_their_fields() {
    assert_eq!(write_request(&load("alpha")), postcard::to_stdvec(&(0u32, "alpha")).unwrap());
    assert_eq!(
        write_request(&store("k\u{e9}y", &[0, 255, 7])),
        postcard::to_stdvec(&(1u32, "k\u{e9}y", vec![0u8, 255, 7])).unwrap()
    );
    let long_key = "x".repeat(200);
    let long_hash = vec![3u8; 1000];
    assert_eq!(
        write_request(&store(&long_key, &long_hash)),
        postcard::to_stdvec(&(1u32, long_key.as_str(), long_hash.clone())).unwrap()
    );
}

#[test]
fn responses_are_encoded_as_postcard_encodes_their_fields() {
    assert_eq!(write_response(&missing()), postcard::to_stdvec(&None::<Vec<u8>>).unwrap());
    assert_eq!(
        write_response(&found(&[1, 2])),
        postcard::to_stdvec(&Some(vec![1u8, 2])).unwrap()
    );
    assert_eq!(write_response(&stored(true)), postcard::to_stdvec(&true).unwrap());
    assert_eq!(write_response(&stored(false)), postcard::to_stdvec(&false).unwrap());
}

#[test]
fn responses_have_no_variant_index() {
    assert_eq!(write_response(&missing()), vec![0]);
    assert_eq!(write_response(&found(&[0x01, 0x02])), vec![1, 2, 0x01, 0x02]);
    assert_eq!(write_response(&found(&[])), vec![1, 0]);
    assert_eq!(write_response(&stored(true)), vec![1]);
    assert_eq!(write_response(&stored(false)), vec![0]);
}

#[test]
fn absent_hash_and_refused_write_share_an_encoding() {
    assert_eq!(write_response(&missing()), write_response(&stored(false)));
}

#[test]
fn request_round_trip() {
    let long_key = "k".repeat(300);
    let cases = [
        load(""),
        load("alpha"),
        load("\u{1f980} crab"),
        load(&long_key),
        store("", &[]),
        store("alpha", &[0x01, 0x02]),
        store("zeros", &[0, 0, 0]),
        store(&long_key, &vec![0xabu8; 70000]),
    ];
    for request in cases {
        assert_eq!(read_request(&write_request(&request)), Ok(request));
    }
}

#[test]
fn response_round_trip() {
    let asked_load = load("k");
    let asked_store = store("k", &[1]);
    for response in [missing(), found(&[]), found(&[0, 1, 2]), found(&vec![9u8; 500])] {
        assert_eq!(read_response(&asked_load, &write_response(&response)), Ok(response));
    }
    for response in [stored(true), stored(false)] {
        assert_eq!(read_response(&asked_store, &write_response(&response)), Ok(response));
    }
}

#[test]
fn response_is_read_as_the_variant_of_its_request() {
    assert_eq!(read_response(&load("k"), &[0]), Ok(missing()));
    assert_eq!(read_response(&store("k", &[]), &[0]), Ok(stored(false)));
    assert_eq!(read_response(&load("k"), &[1, 1, 7]), Ok(found(&[7])));
    assert_eq!(read_response(&store("k", &[]), &[1, 1, 7]), Ok(stored(true)));
    // A flag alone is no present hash.
    assert_eq!(read_response(&load("k"), &[1]), Err(Fault::Decode));
}

#[test]
fn read_response_rejects_other_bytes() {
    assert_eq!(read_response(&load("k"), &[]), Err(Fault::Decode));
    assert_eq!(read_response(&store("k", &[]), &[]), Err(Fault::Decode));
    assert_eq!(read_response(&load("k"), &[2]), Err(Fault::Decode));
    assert_eq!(read_response(&store("k", &[]), &[2]), Err(Fault::Decode));
    assert_eq!(read_response(&load("k"), &[1, 3, 1, 2]), Err(Fault::Decode));
}

#[test]
fn read_request_ignores_what_follows() {
    assert_eq!(read_request(&[0, 1, b'k', 0xde, 0xad]), Ok(load("k")));
    assert_eq!(read_request(&[1, 1, b'k', 1, 7, 0xde, 0xad]), Ok(store("k", &[7])));
}

#[test]
fn read_request_rejects_what_is_no_request() {
    assert_eq!(read_request(&[]), Err(Fault::Decode));
    // No such variant.
    assert_eq!(read_request(&[2, 1, b'k']), Err(Fault::Decode));
    // The key ends early.
    assert_eq!(read_request(&[0, 5, b'a', b'b']), Err(Fault::Decode));
    // The key is not UTF-8.
    assert_eq!(read_request(&[0, 1, 0xff]), Err(Fault::Decode));
    // A store without its hash.
    assert_eq!(read_request(&[1, 1, b'k']), Err(Fault::Decode));
    // The hash ends early.
    assert_eq!(read_request(&[1, 1, b'k', 4, 1, 2]), Err(Fault::Decode));
    // The index does not end.
    assert_eq!(read_request(&[0x80]), Err(Fault::Decode));
}

#[test]
fn read_request_accepts_what_postcard_accepts() {
    let cases: [&[u8]; 10] = [
        &[0, 5, b'a', b'l', b'p', b'h', b'a'],
        &[0x80, 0x00, 1, b'k'],
        &[0, 0x81, 0x00, b'k'],
        &[1, 1, b'k', 2, 0, 0],
        &[1, 1, b'k', 2, 0],
        &[2, 1, b'k'],
        &[0, 1, 0xff],
        &[0, 2, b'k'],
        &[0xff, 0xff, 0xff, 0xff, 0x0f, 0],
        &[],
    ];
    for bytes in cases {
        let ours = read_request(bytes).ok();
        let index = postcard::from_bytes::<u32>(bytes).ok();
        let theirs = match index {
            Some(0) => postcard::from_bytes::<(u32, String)>(bytes).ok().map(|(_, key)| load(&key)),
            Some(1) => postcard::from_bytes::<(u32, String, Vec<u8>)>(bytes)
                .ok()
                .map(|(_, key, hash)| store(&key, &hash)),
            _ => None,
        };
        assert_eq!(ours, theirs);
    }
}
