//! The control-channel request codec.
//!
//! A request travels as one self-describing frame: a tag byte, and for the
//! named commands a four-byte little-endian length followed by the name's
//! UTF-8 bytes. Explicit length-prefixed framing rules out the silent
//! truncation that a fixed receive buffer would invite; a frame is still
//! bounded by [`MAX_FRAME`] in keeping with the channel's sizing. Responses
//! are plain UTF-8 text and need no framing of their own.

use vstd::prelude::*;

verus! {

use vstd::string::StringSliceAdditionalSpecFns;
use vstd::string::StrSliceExecFns;
use vstd::slice::slice_subrange;
use vstd::slice::slice_to_vec;
use vstd::utf8::encode_utf8;
use vstd::utf8::valid_utf8;
use vstd::utf8::encode_utf8_valid_utf8;
use vstd::utf8::encode_utf8_decode_utf8;

/// The whole command surface that reaches the server over the control
/// channel. `NoCommand` is a deliberate empty request: the shutdown path
/// sends one to unpark the accept loop, and the server answers it with a
/// fixed text.
#[derive(Debug, Clone, PartialEq, Eq)]
pub enum Request {
    NoCommand,
    Start(String),
    Stop(String),
    Status(String),
    Reload,
}

/// Upper bound on a frame, either direction.
pub const MAX_FRAME: usize = 1024;

pub const NO_COMMAND_TAG: u8 = 0;

pub const START_TAG: u8 = 1;

pub const STOP_TAG: u8 = 2;

pub const STATUS_TAG: u8 = 3;

pub const RELOAD_TAG: u8 = 4;

/// Four little-endian bytes of `n` (taken modulo 2^32).
pub open spec fn le32(n: nat) -> Seq<u8> {
    seq![
        (n % 256) as u8,
        ((n / 256) % 256) as u8,
        ((n / 65536) % 256) as u8,
        ((n / 16777216) % 256) as u8,
    ]
}

/// The frame of a named command: tag, payload length, payload.
pub open spec fn name_frame(tag: u8, name: Seq<char>) -> Seq<u8> {
    seq![tag] + le32(encode_utf8(name).len()) + encode_utf8(name)
}

/// The frame that carries `req`.
pub open spec fn spec_encode(req: Request) -> Seq<u8> {
    match req {
        Request::NoCommand => seq![NO_COMMAND_TAG],
        Request::Start(name) => name_frame(START_TAG, name@),
        Request::Stop(name) => name_frame(STOP_TAG, name@),
        Request::Status(name) => name_frame(STATUS_TAG, name@),
        Request::Reload => seq![RELOAD_TAG],
    }
}

/// `bytes` is exactly the frame of `req`, within the channel's bound.
pub open spec fn decodes_to(bytes: Seq<u8>, req: Request) -> bool {
    bytes == spec_encode(req) && bytes.len() <= MAX_FRAME
}

/// The tag byte that opens the frame of `req`.
pub open spec fn frame_tag(req: Request) -> u8 {
    match req {
        Request::NoCommand => NO_COMMAND_TAG,
        Request::Start(_) => START_TAG,
        Request::Stop(_) => STOP_TAG,
        Request::Status(_) => STATUS_TAG,
        Request::Reload => RELOAD_TAG,
    }
}

/// Shape facts about a frame: it opens with the request's tag, and only
/// the named commands run past one byte.
proof fn lemma_frame_head(req: Request)
    ensures
        spec_encode(req).len() >= 1,
        spec_encode(req)[0] == frame_tag(req),
        (req is Start || req is Stop || req is Status) ==> spec_encode(req).len() >= 5,
        (req is NoCommand || req is Reload) ==> spec_encode(req).len() == 1,
{
    match req {
        Request::NoCommand => {},
        Request::Reload => {},
        Request::Start(name) => {
            assert(name_frame(START_TAG, name@)[0] == START_TAG);
        },
        Request::Stop(name) => {
            assert(name_frame(STOP_TAG, name@)[0] == STOP_TAG);
        },
        Request::Status(name) => {
            assert(name_frame(STATUS_TAG, name@)[0] == STATUS_TAG);
        },
    }
}

/// The name a request speaks of; the un-named requests read as empty.
pub open spec fn req_name(req: Request) -> Seq<char> {
    match req {
        Request::Start(n) => n@,
        Request::Stop(n) => n@,
        Request::Status(n) => n@,
        _ => Seq::<char>::empty(),
    }
}

/// Distinct requests have distinct frames: a frame pins down the command
/// and the name it names, so decoding is unambiguous.
pub proof fn lemma_encode_injective(r1: Request, r2: Request)
    requires
        spec_encode(r1) == spec_encode(r2),
    ensures
        frame_tag(r1) == frame_tag(r2),
        req_name(r1) == req_name(r2),
{
    lemma_frame_head(r1);
    lemma_frame_head(r2);
    match (r1, r2) {
        (Request::Start(n1), Request::Start(n2)) => lemma_frame_injective(n1@, n2@),
        (Request::Stop(n1), Request::Stop(n2)) => lemma_frame_injective(n1@, n2@),
        (Request::Status(n1), Request::Status(n2)) => lemma_frame_injective(n1@, n2@),
        _ => {},
    }
}

/// Equal name frames carry equal names.
proof fn lemma_frame_injective(n1: Seq<char>, n2: Seq<char>)
    requires
        (exists|tag: u8| name_frame(tag, n1) == #[trigger] name_frame(tag, n2)),
    ensures
        n1 == n2,
{
    let tag = choose|tag: u8| name_frame(tag, n1) == name_frame(tag, n2);
    let u1 = encode_utf8(n1);
    let u2 = encode_utf8(n2);
    assert(name_frame(tag, n1).len() == 5 + u1.len());
    assert(name_frame(tag, n2).len() == 5 + u2.len());
    assert forall|i: int| 0 <= i < u1.len() implies u1[i] == u2[i] by {
        assert(u1[i] == name_frame(tag, n1)[i + 5]);
        assert(u2[i] == name_frame(tag, n2)[i + 5]);
    }
    assert(u1 =~= u2);
    encode_utf8_decode_utf8(n1);
    encode_utf8_decode_utf8(n2);
}

/// Relies on `String::from_utf8`: it succeeds exactly on UTF-8 input, and
/// the returned string's UTF-8 encoding is that input.
#[verifier::external_body]
pub(crate) fn string_from_utf8(bytes: Vec<u8>) -> (r: Option<String>)
    ensures
        r is Some <==> valid_utf8(bytes@),
        r is Some ==> encode_utf8(r.unwrap()@) == bytes@,
{
    match String::from_utf8(bytes) {
        Ok(s) => Some(s),
        Err(_) => None,
    }
}

/// Builds the frame of a named command, refusing a name whose frame would
/// overrun [`MAX_FRAME`].
fn encode_named(tag: u8, name: &String) -> (r: Option<Vec<u8>>)
    ensures
        match r {
            Some(v) => v@ == name_frame(tag, name@) && v@.len() <= MAX_FRAME,
            None => name_frame(tag, name@).len() > MAX_FRAME,
        },
{
    let mut payload = name.as_str().as_bytes_vec();
    if payload.len() > MAX_FRAME - 5 {
        return None;
    }
    let l = payload.len();
    let mut v: Vec<u8> = Vec::new();
    v.push(tag);
    v.push((l % 256) as u8);
    v.push(((l / 256) % 256) as u8);
    v.push(((l / 65536) % 256) as u8);
    v.push(((l / 16777216) % 256) as u8);
    v.append(&mut payload);
    proof {
        assert(v@ =~= name_frame(tag, name@));
    }
    Some(v)
}

/// Encodes `req` as one frame, or reports that the name is too long for
/// the channel.
pub fn encode(req: &Request) -> (r: Option<Vec<u8>>)
    ensures
        match r {
            Some(v) => v@ == spec_encode(*req) && v@.len() <= MAX_FRAME,
            None => spec_encode(*req).len() > MAX_FRAME,
        },
{
    match req {
        Request::NoCommand => {
            let mut v: Vec<u8> = Vec::new();
            v.push(NO_COMMAND_TAG);
            proof {
                assert(v@ =~= spec_encode(*req));
            }
            Some(v)
        },
        Request::Reload => {
            let mut v: Vec<u8> = Vec::new();
            v.push(RELOAD_TAG);
            proof {
                assert(v@ =~= spec_encode(*req));
            }
            Some(v)
        },
        Request::Start(name) => encode_named(START_TAG, name),
        Request::Stop(name) => encode_named(STOP_TAG, name),
        Request::Status(name) => encode_named(STATUS_TAG, name),
    }
}

/// Decodes one frame. `None` means the bytes are not the frame of any
/// request (malformed, unknown tag, wrong length, or not UTF-8) — the
/// caller renders a parse-failure response, it never fails harder.
pub fn decode(bytes: &[u8]) -> (r: Option<Request>)
    ensures
        match r {
            Some(req) => decodes_to(bytes@, req),
            None => forall|req: Request| !decodes_to(bytes@, req),
        },
{
    if bytes.len() == 0 || bytes.len() > MAX_FRAME {
        return None;
    }
    let tag = bytes[0];
    if tag == NO_COMMAND_TAG || tag == RELOAD_TAG {
        if bytes.len() != 1 {
            proof {
                lemma_no_short_frame(bytes@);
            }
            return None;
        }
        if tag == NO_COMMAND_TAG {
            proof {
                assert(bytes@ =~= spec_encode(Request::NoCommand));
            }
            return Some(Request::NoCommand);
        }
        proof {
            assert(bytes@ =~= spec_encode(Request::Reload));
        }
        return Some(Request::Reload);
    }
    if !(tag == START_TAG || tag == STOP_TAG || tag == STATUS_TAG) {
        proof {
            lemma_unknown_tag(bytes@);
        }
        return None;
    }
    if bytes.len() < 5 {
        proof {
            lemma_no_short_frame(bytes@);
        }
        return None;
    }
    let m = bytes.len() - 5;
    if !(bytes[1] == (m % 256) as u8 && bytes[2] == ((m / 256) % 256) as u8 && bytes[3] == ((m
        / 65536) % 256) as u8 && bytes[4] == ((m / 16777216) % 256) as u8) {
        proof {
            lemma_bad_length_bytes(bytes@);
        }
        return None;
    }
    let payload = slice_to_vec(slice_subrange(bytes, 5, bytes.len()));
    match string_from_utf8(payload) {
        Some(name) => {
            proof {
                assert(bytes@ =~= name_frame(tag, name@)) by {
                    assert(encode_utf8(name@) =~= bytes@.subrange(5, bytes@.len() as int));
                }
            }
            if tag == START_TAG {
                Some(Request::Start(name))
            } else if tag == STOP_TAG {
                Some(Request::Stop(name))
            } else {
                Some(Request::Status(name))
            }
        },
        None => {
            proof {
                lemma_invalid_payload(bytes@);
            }
            None
        },
    }
}

/// No frame with a leading named-command tag is shorter than its header,
/// and no one-byte-tag frame is longer than one byte.
proof fn lemma_no_short_frame(bytes: Seq<u8>)
    requires
        bytes.len() >= 1,
        (bytes[0] == NO_COMMAND_TAG || bytes[0] == RELOAD_TAG) ==> bytes.len() != 1,
        (bytes[0] == START_TAG || bytes[0] == STOP_TAG || bytes[0] == STATUS_TAG) ==> bytes.len()
            < 5,
    ensures
        forall|req: Request| !decodes_to(bytes, req),
{
    assert forall|req: Request| !decodes_to(bytes, req) by {
        if bytes == spec_encode(req) {
            match req {
                Request::NoCommand => {},
                Request::Reload => {},
                Request::Start(_) => {},
                Request::Stop(_) => {},
                Request::Status(_) => {},
            }
        }
    }
}

/// No request's frame starts with an unassigned tag byte.
proof fn lemma_unknown_tag(bytes: Seq<u8>)
    requires
        bytes.len() >= 1,
        bytes[0] != NO_COMMAND_TAG,
        bytes[0] != RELOAD_TAG,
        bytes[0] != START_TAG,
        bytes[0] != STOP_TAG,
        bytes[0] != STATUS_TAG,
    ensures
        forall|req: Request| !decodes_to(bytes, req),
{
    assert forall|req: Request| !decodes_to(bytes, req) by {
        if bytes == spec_encode(req) {
            match req {
                Request::NoCommand => {},
                Request::Reload => {},
                Request::Start(_) => {},
                Request::Stop(_) => {},
                Request::Status(_) => {},
            }
        }
    }
}

/// In a well-formed frame the length field equals the payload length, so a
/// mismatch rules every request out.
proof fn lemma_bad_length_bytes(bytes: Seq<u8>)
    requires
        bytes.len() >= 5,
        ({
            let m = (bytes.len() - 5) as nat;
            !(bytes[1] == (m % 256) as u8 && bytes[2] == ((m / 256) % 256) as u8 && bytes[3] == ((m
                / 65536) % 256) as u8 && bytes[4] == ((m / 16777216) % 256) as u8)
        }),
    ensures
        forall|req: Request| !decodes_to(bytes, req),
{
    assert forall|req: Request| !decodes_to(bytes, req) by {
        if bytes == spec_encode(req) {
            match req {
                Request::Start(name) => lemma_length_bytes_match(bytes, name@),
                Request::Stop(name) => lemma_length_bytes_match(bytes, name@),
                Request::Status(name) => lemma_length_bytes_match(bytes, name@),
                _ => {},
            }
        }
    }
}

/// In the frame of a named command, the length field is the little-endian
/// form of the payload length.
proof fn lemma_length_bytes_match(bytes: Seq<u8>, name: Seq<char>)
    requires
        (exists|tag: u8| bytes == #[trigger] name_frame(tag, name)),
    ensures
        bytes.len() >= 5,
        ({
            let m = (bytes.len() - 5) as nat;
            bytes[1] == (m % 256) as u8 && bytes[2] == ((m / 256) % 256) as u8 && bytes[3] == ((m
                / 65536) % 256) as u8 && bytes[4] == ((m / 16777216) % 256) as u8
        }),
{
    let tag = choose|tag: u8| bytes == name_frame(tag, name);
    let u = encode_utf8(name);
    assert(bytes.len() == 5 + u.len());
    assert(bytes[1] == le32(u.len())[0]);
    assert(bytes[2] == le32(u.len())[1]);
    assert(bytes[3] == le32(u.len())[2]);
    assert(bytes[4] == le32(u.len())[3]);
}

/// A payload that is not UTF-8 is no name's encoding, so the frame decodes
/// to nothing.
proof fn lemma_invalid_payload(bytes: Seq<u8>)
    requires
        bytes.len() >= 5,
        !valid_utf8(bytes.subrange(5, bytes.len() as int)),
    ensures
        forall|req: Request| !decodes_to(bytes, req),
{
    assert forall|req: Request| !decodes_to(bytes, req) by {
        if bytes == spec_encode(req) {
            match req {
                Request::Start(name) => lemma_payload_is_encoding(bytes, name@),
                Request::Stop(name) => lemma_payload_is_encoding(bytes, name@),
                Request::Status(name) => lemma_payload_is_encoding(bytes, name@),
                _ => {},
            }
        }
    }
}

/// The payload of a named command's frame is the name's UTF-8 encoding,
/// which is valid UTF-8.
proof fn lemma_payload_is_encoding(bytes: Seq<u8>, name: Seq<char>)
    requires
        (exists|tag: u8| bytes == #[trigger] name_frame(tag, name)),
    ensures
        valid_utf8(bytes.subrange(5, bytes.len() as int)),
{
    let tag = choose|tag: u8| bytes == name_frame(tag, name);
    let u = encode_utf8(name);
    assert(bytes.subrange(5, bytes.len() as int) =~= u);
    encode_utf8_valid_utf8(name);
}

} // verus!
