//! Length-prefixed framing for the host-guest broker channel.
//!
//! A frame is a 4-byte big-endian length followed by that many bytes of UTF-8
//! JSON. The length is capped so a malicious guest cannot force a huge
//! allocation. JSON encoding and the socket I/O happen around these checks.

use vstd::prelude::*;

use crate::text::{decimal, decimal_text, str_concat};

verus! {

/// Hard cap on a single frame's body, in bytes (8 MiB).
pub const MAX_FRAME_BYTES: usize = 8_388_608;

/// Envelope key: message id.
pub const KEY_ID: &'static str = "id";
/// Envelope key: method name.
pub const KEY_METHOD: &'static str = "method";
/// Envelope key: parameters.
pub const KEY_PARAMS: &'static str = "params";
/// Envelope key: auth token.
pub const KEY_TOKEN: &'static str = "token";
/// Reply key: success flag.
pub const KEY_OK: &'static str = "ok";
/// Reply key: error message.
pub const KEY_ERROR: &'static str = "error";
/// Reply/parameter key: value.
pub const KEY_VALUE: &'static str = "value";
/// `call_tool` parameter: tool name.
pub const KEY_NAME: &'static str = "name";
/// `call_tool` parameter: namespace.
pub const KEY_NAMESPACE: &'static str = "namespace";
/// `call_tool` parameter: arguments.
pub const KEY_ARGUMENTS: &'static str = "arguments";
/// RPC method: handshake.
pub const METHOD_HELLO: &'static str = "hello";
/// RPC method: list the callable tools.
pub const METHOD_LIST_TOOLS: &'static str = "list_tools";
/// RPC method: call a host tool.
pub const METHOD_CALL_TOOL: &'static str = "call_tool";
/// RPC method: report the run's final value.
pub const METHOD_RESULT: &'static str = "result";

/// Why a message is refused.
#[derive(Debug, Clone, PartialEq, Eq)]
pub enum WireError {
    /// An outgoing message body of this many bytes exceeds the cap.
    MessageTooLarge(usize),
    /// An incoming header declares a body of this many bytes, over the cap.
    FrameTooLarge(usize),
    /// An incoming message is valid JSON but not an object.
    NotAnObject,
    /// A body is not valid JSON (or a value could not be encoded); the
    /// parser's own message.
    Malformed(String),
    /// A body ends in the middle of a JSON value; the parser's own message.
    Truncated(String),
}

/// The text of a wire error.
pub open spec fn wire_error_text(e: WireError) -> Seq<char> {
    match e {
        WireError::MessageTooLarge(n) => "message too large: "@ + decimal(n as nat),
        WireError::FrameTooLarge(n) => "declared frame length "@ + decimal(n as nat) + " exceeds cap"@,
        WireError::NotAnObject => "wire message must be a JSON object"@,
        WireError::Malformed(m) => m@,
        WireError::Truncated(m) => m@,
    }
}

impl WireError {
    /// The error's message.
    pub fn message(&self) -> (m: String)
        ensures
            m@ == wire_error_text(*self),
    {
        match self {
            WireError::MessageTooLarge(n) => str_concat("message too large: ", decimal_text(*n as u64).as_str()),
            WireError::FrameTooLarge(n) => str_concat(
                str_concat("declared frame length ", decimal_text(*n as u64).as_str()).as_str(),
                " exceeds cap",
            ),
            WireError::NotAnObject => "wire message must be a JSON object".to_owned(),
            WireError::Malformed(m) => m.clone(),
            WireError::Truncated(m) => m.clone(),
        }
    }
}

/// How a body reads as JSON.
#[derive(Debug)]
pub enum JsonShape {
    /// Not valid JSON.
    Invalid,
    /// Valid JSON, but not an object.
    NotObject,
    /// A JSON object: the value parsed.
    Object(serde_json::Value),
}

/// What `serde_json::from_slice::<serde_json::Value>` makes of `bytes`: a
/// function of the bytes alone.
pub uninterp spec fn json_shape(bytes: Seq<u8>) -> JsonShape;

/// A parsed body.
pub enum Parsed {
    /// A JSON object.
    Object(serde_json::Value),
    /// Valid JSON that is not an object.
    NotObject,
    /// Not valid JSON: the parser's message, and whether the input ended
    /// in the middle of a value.
    Invalid(String, bool),
}

/// The shape a parse result reports.
pub open spec fn shape_of(p: Parsed) -> JsonShape {
    match p {
        Parsed::Object(v) => JsonShape::Object(v),
        Parsed::NotObject => JsonShape::NotObject,
        Parsed::Invalid(_, _) => JsonShape::Invalid,
    }
}

/// Parses `body` with `serde_json::from_slice::<serde_json::Value>`, telling
/// an object from any other JSON value and from a parse error. What it makes
/// of the bytes, the parsed object included, is named [`json_shape`]; the
/// parser's error message and its end-of-input category are not stated.
#[verifier::external_body]
fn parse_json(body: &[u8]) -> (p: Parsed)
    ensures
        shape_of(p) == json_shape(body@),
{
    match serde_json::from_slice::<serde_json::Value>(body) {
        Ok(serde_json::Value::Object(m)) => Parsed::Object(serde_json::Value::Object(m)),
        Ok(_) => Parsed::NotObject,
        Err(e) => Parsed::Invalid(e.to_string(), e.is_eof()),
    }
}

/// The JSON text `serde_json::to_vec` writes for `v`: a function of the value
/// alone.
pub uninterp spec fn json_text(v: serde_json::Value) -> Seq<u8>;

/// Serializes `v` with `serde_json::to_vec`. Serializing a JSON value never
/// fails (its object keys are strings), so the result is always `Ok`; the
/// bytes are named [`json_text`].
#[verifier::external_body]
fn json_bytes(v: &serde_json::Value) -> (r: Result<Vec<u8>, String>)
    ensures
        r is Ok,
        r->Ok_0@ == json_text(*v),
{
    serde_json::to_vec(v).map_err(|e| e.to_string())
}

/// The message a received frame body holds: it must be a JSON object, and
/// then it is the object parsed.
pub fn decode_body(body: &[u8]) -> (r: Result<serde_json::Value, WireError>)
    ensures
        r is Ok <==> json_shape(body@) is Object,
        r matches Ok(v) ==> json_shape(body@) == JsonShape::Object(v),
        json_shape(body@) is NotObject ==> r == Err::<serde_json::Value, WireError>(WireError::NotAnObject),
        json_shape(body@) is Invalid ==> (r matches Err(e) && (e is Malformed || e is Truncated)),
{
    match parse_json(body) {
        Parsed::Object(v) => Ok(v),
        Parsed::NotObject => Err(WireError::NotAnObject),
        Parsed::Invalid(m, eof) => if eof {
            Err(WireError::Truncated(m))
        } else {
            Err(WireError::Malformed(m))
        },
    }
}

/// `r` is what [`frame`] gives for `body`: the length header followed by the
/// body, or a refusal naming its length when it exceeds the cap.
pub open spec fn framed(body: Seq<u8>, r: Result<Vec<u8>, WireError>) -> bool {
    if body.len() > MAX_FRAME_BYTES {
        r == Err::<Vec<u8>, WireError>(WireError::MessageTooLarge(body.len() as usize))
    } else {
        r matches Ok(f) && f@.len() == body.len() + 4 && header_value([f@[0], f@[1], f@[2], f@[3]]) == body.len()
            && f@.subrange(4, f@.len() as int) == body
    }
}

/// The frame that carries `msg`: its JSON text behind a length header,
/// refused when the text exceeds [`MAX_FRAME_BYTES`].
pub fn encode_message(msg: &serde_json::Value) -> (r: Result<Vec<u8>, WireError>)
    ensures
        framed(json_text(*msg), r),
{
    match json_bytes(msg) {
        Ok(body) => {
            let n = body.len();
            let sl = body.as_slice();
            assert(sl@ == body@);
            let r = frame(sl);
            assert(sl@.len() == n);
            assert(framed(body@, r));
            r
        },
        Err(m) => Err(WireError::Malformed(m)),
    }
}

/// The number a 4-byte big-endian header encodes.
pub open spec fn header_value(h: [u8; 4]) -> int {
    h[0] * 16777216 + h[1] * 65536 + h[2] * 256 + h[3]
}

/// The header for a body of `len` bytes; refused over [`MAX_FRAME_BYTES`].
pub fn encode_header(len: usize) -> (r: Result<[u8; 4], WireError>)
    ensures
        len > MAX_FRAME_BYTES ==> r == Err::<[u8; 4], WireError>(WireError::MessageTooLarge(len)),
        len <= MAX_FRAME_BYTES ==> (r matches Ok(h) && header_value(h) == len),
{
    if len > MAX_FRAME_BYTES {
        return Err(WireError::MessageTooLarge(len));
    }
    let b0 = (len / 16777216) as u8;
    let b1 = ((len / 65536) % 256) as u8;
    let b2 = ((len / 256) % 256) as u8;
    let b3 = (len % 256) as u8;
    let h = [b0, b1, b2, b3];
    assert(header_value(h) == len) by (nonlinear_arith)
        requires
            len <= 8_388_608,
            h[0] == len / 16777216,
            h[1] == (len / 65536) % 256,
            h[2] == (len / 256) % 256,
            h[3] == len % 256,
    ;
    Ok(h)
}

/// The body length a received header declares; refused over [`MAX_FRAME_BYTES`].
pub fn decode_header(h: [u8; 4]) -> (r: Result<usize, WireError>)
    ensures
        header_value(h) > MAX_FRAME_BYTES ==> r == Err::<usize, WireError>(WireError::FrameTooLarge(header_value(h) as usize)),
        header_value(h) <= MAX_FRAME_BYTES ==> r == Ok::<usize, WireError>(header_value(h) as usize),
{
    let len: u64 = h[0] as u64 * 16777216 + h[1] as u64 * 65536 + h[2] as u64 * 256 + h[3] as u64;
    if len > MAX_FRAME_BYTES as u64 {
        assert(len <= u32::MAX);
        return Err(WireError::FrameTooLarge(len as usize));
    }
    Ok(len as usize)
}

/// A frame for `body`: the header, then the body.
pub fn frame(body: &[u8]) -> (r: Result<Vec<u8>, WireError>)
    ensures
        body@.len() > MAX_FRAME_BYTES ==> r == Err::<Vec<u8>, WireError>(WireError::MessageTooLarge(body@.len() as usize)),
        body@.len() <= MAX_FRAME_BYTES ==> (r matches Ok(f) && f@.len() == body@.len() + 4 && header_value(
            [f@[0], f@[1], f@[2], f@[3]],
        ) == body@.len() && f@.subrange(4, f@.len() as int) == body@),
{
    let h = encode_header(body.len())?;
    let mut f: Vec<u8> = Vec::new();
    f.push(h[0]);
    f.push(h[1]);
    f.push(h[2]);
    f.push(h[3]);
    let mut i: usize = 0;
    while i < body.len()
        invariant
            i <= body@.len(),
            f@.len() == 4 + i,
            f@[0] == h[0] && f@[1] == h[1] && f@[2] == h[2] && f@[3] == h[3],
            f@.subrange(4, f@.len() as int) == body@.take(i as int),
        decreases body@.len() - i,
    {
        f.push(body[i]);
        assert(f@.subrange(4, f@.len() as int) =~= body@.take(i + 1));
        i += 1;
    }
    assert(body@.take(body@.len() as int) =~= body@);
    assert([f@[0], f@[1], f@[2], f@[3]] == h);
    Ok(f)
}

/// Decoding the header of a frame gives back the length it was built for.
pub proof fn lemma_header_round_trip(len: usize, h: [u8; 4])
    requires
        len <= MAX_FRAME_BYTES,
        header_value(h) == len,
    ensures
        header_value(h) <= MAX_FRAME_BYTES,
        header_value(h) as usize == len,
{
}

} // verus!
