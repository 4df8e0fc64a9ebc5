//! The websocket handshake: the upgrade request is accepted when it asks for
//! a websocket and carries a key, and the answer proves knowledge of the key
//! by the accept value of RFC 6455.
use base64::Engine;
use vstd::prelude::*;
use vstd::string::StringSliceAdditionalSpecFns;
use vstd::utf8::{is_ascii_chars, is_ascii_chars_encode_utf8};

use crate::text::{find_bytes, find_from, str_eq};

verus! {

/// Websocket GUID constant as specified in RFC6455:
/// <https://datatracker.ietf.org/doc/html/rfc6455#section-1.3>
pub const GUID: &'static str = "258EAFA5-E914-47DA-95CA-C5AB0DC85B11";

/// The SHA-1 digest of `data`, as `ring` computes it.
pub uninterp spec fn sha1_digest(data: Seq<u8>) -> Seq<u8>;

/// The character of the standard base64 alphabet for the six bits `v`:
/// `A`-`Z`, `a`-`z`, `0`-`9`, `+` and `/`.
pub open spec fn base64_char(v: int) -> char {
    if v < 26 {
        (65 + v) as char
    } else if v < 52 {
        (97 + (v - 26)) as char
    } else if v < 62 {
        (48 + (v - 52)) as char
    } else if v == 62 {
        '+'
    } else {
        '/'
    }
}

/// The standard base64 encoding of `data` (RFC 4648, section 4), with
/// padding, as the `base64` crate's `STANDARD` engine writes it: each three
/// bytes become four characters of six bits each; a last group of one or
/// two bytes becomes two or three characters and `=` up to four.
pub open spec fn base64_standard(data: Seq<u8>) -> Seq<char>
    decreases data.len(),
{
    let x = data[0] as int;
    let y = data[1] as int;
    let z = data[2] as int;
    if data.len() == 0 {
        Seq::empty()
    } else if data.len() == 1 {
        seq![base64_char(x / 4), base64_char((x % 4) * 16), '=', '=']
    } else if data.len() == 2 {
        seq![base64_char(x / 4), base64_char((x % 4) * 16 + y / 16), base64_char((y % 16) * 4), '=']
    } else {
        seq![
            base64_char(x / 4),
            base64_char((x % 4) * 16 + y / 16),
            base64_char((y % 16) * 4 + z / 64),
            base64_char(z % 64),
        ] + base64_standard(data.subrange(3, data.len() as int))
    }
}

/// `ring::digest::digest` with `SHA1_FOR_LEGACY_USE_ONLY`: the SHA-1 digest
/// of `data`, 20 bytes long. `ring` refuses inputs of 2^61 bytes or more
/// (their length in bits does not fit in 64 bits).
#[verifier::external_body]
fn sha1(data: &[u8]) -> (r: Vec<u8>)
    requires
        data@.len() < 0x2000_0000_0000_0000,
    ensures
        r@ == sha1_digest(data@),
        r@.len() == 20,
{
    ring::digest::digest(&ring::digest::SHA1_FOR_LEGACY_USE_ONLY, data).as_ref().to_vec()
}

/// `Engine::encode` of `base64::engine::general_purpose::STANDARD`: the
/// standard base64 encoding with padding. It panics when the length of the encoding overflows `usize`, which inputs of
/// at most a quarter of `usize::MAX` bytes cannot reach.
#[verifier::external_body]
fn base64_encode(data: &[u8]) -> (r: String)
    requires
        data@.len() <= usize::MAX / 4,
    ensures
        r@ == base64_standard(data@),
{
    base64::engine::general_purpose::STANDARD.encode(data)
}

/// The `Sec-WebSocket-Accept` value for a `Sec-WebSocket-Key`: the base64
/// encoding of the SHA-1 digest of the key followed by the GUID.
pub open spec fn accept_key_spec(key: Seq<u8>) -> Seq<char> {
    base64_standard(sha1_digest(key + GUID.spec_bytes()))
}

/// Computes the `Sec-WebSocket-Accept` value for a `Sec-WebSocket-Key`.
pub fn accept_key(websocket_key: &[u8]) -> (r: String)
    requires
        websocket_key@.len() < 0x1000_0000_0000_0000,
    ensures
        r@ == accept_key_spec(websocket_key@),
{
    let guid = GUID.as_bytes();
    let mut data: Vec<u8> = Vec::new();
    let mut i: usize = 0;
    while i < websocket_key.len()
        invariant
            i <= websocket_key@.len(),
            data@ == websocket_key@.subrange(0, i as int),
        decreases websocket_key@.len() - i,
    {
        data.push(websocket_key[i]);
        i = i + 1;
    }
    let mut j: usize = 0;
    while j < guid.len()
        invariant
            j <= guid@.len(),
            guid@ == GUID.spec_bytes(),
            websocket_key@.len() < 0x1000_0000_0000_0000,
            data@ == websocket_key@ + guid@.subrange(0, j as int),
        decreases guid@.len() - j,
    {
        data.push(guid[j]);
        j = j + 1;
    }
    assert(guid@.subrange(0, guid@.len() as int) =~= guid@);
    assert(websocket_key@.subrange(0, websocket_key@.len() as int) =~= websocket_key@);
    proof {
        reveal_strlit("258EAFA5-E914-47DA-95CA-C5AB0DC85B11");
        assert(is_ascii_chars(GUID@));
        is_ascii_chars_encode_utf8(GUID@);
    }
    let digest = sha1(data.as_slice());
    base64_encode(digest.as_slice())
}

/// How the proxy answers a websocket upgrade request.
pub enum UpgradeResponse {
    /// 400: the request is not a websocket upgrade or has no key.
    BadRequest,
    /// 101, with the accept value for the key.
    SwitchingProtocols { accept_key: String },
}

/// The answer to an upgrade request, and whether the query string asked for
/// zlib-stream compression.
pub struct UpgradeDecision {
    pub response: UpgradeResponse,
    pub use_zlib: bool,
}

/// The query parameter that asks for zlib-stream compression.
pub const ZLIB_STREAM_QUERY: &'static str = "compress=zlib-stream";

/// Accept a websocket upgrade request: it must have `Upgrade: websocket`
/// and a `Sec-WebSocket-Key`, which the answer acknowledges with its accept
/// value. Whatever the answer, the query string tells whether the client
/// asked for zlib-stream compression.
///
/// This method is one of two parts in the communication between server
/// and client where zlib-stream compression may be requested.
pub fn upgrade_decision(query: Option<&str>, upgrade: Option<&str>, websocket_key: Option<&[u8]>) -> (r:
    UpgradeDecision)
    requires
        websocket_key matches Some(k) ==> k@.len() < 0x1000_0000_0000_0000,
    ensures
        r.use_zlib == (query matches Some(q) && find_from(
            q.spec_bytes(),
            ZLIB_STREAM_QUERY.spec_bytes(),
            0,
        ) is Some),
        match r.response {
            UpgradeResponse::BadRequest => !(upgrade matches Some(u) && u@ == "websocket"@)
                || websocket_key is None,
            UpgradeResponse::SwitchingProtocols { accept_key } => {
                &&& upgrade matches Some(u) && u@ == "websocket"@
                &&& websocket_key matches Some(k) && accept_key@ == accept_key_spec(k@)
            },
        },
{
    let use_zlib = match query {
        Some(q) => find_bytes(q.as_bytes(), ZLIB_STREAM_QUERY.as_bytes(), 0).is_some(),
        None => false,
    };
    let is_websocket = match upgrade {
        Some(u) => str_eq(u, "websocket"),
        None => false,
    };
    if !is_websocket {
        return UpgradeDecision { response: UpgradeResponse::BadRequest, use_zlib };
    }
    match websocket_key {
        Some(k) => UpgradeDecision {
            response: UpgradeResponse::SwitchingProtocols { accept_key: accept_key(k) },
            use_zlib,
        },
        None => UpgradeDecision { response: UpgradeResponse::BadRequest, use_zlib },
    }
}

} // verus!
