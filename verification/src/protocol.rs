//! Fixed-size request/response encoding of the command channel through which
//! a reader process asks the current HID owner to apply a config write.

use vstd::prelude::*;

verus! {

/// Size in bytes of an encoded [`Request`].
pub const REQUEST_SIZE: usize = 24;

/// Size in bytes of an encoded [`Response`].
pub const RESPONSE_SIZE: usize = 1;

/// How tablet positions are turned into cursor motion.
#[derive(Clone, Copy, Debug, PartialEq, Eq, Structural)]
pub enum DriverMode {
    Absolute,
    Relative,
}

/// The mapped region of the tablet surface. Each field holds the IEEE-754
/// bit pattern of the `f32` it stands for (`f32::to_bits`), which is what
/// travels on the wire.
#[derive(Clone, Copy, Debug, PartialEq, Eq, Structural)]
pub struct ActiveArea {
    pub x: u32,
    pub y: u32,
    pub w: u32,
    pub h: u32,
    pub rotation: u32,
}

/// A config write a reader wants the current HID owner to apply.
#[derive(Clone, Copy, Debug, PartialEq, Eq, Structural)]
pub enum Request {
    /// Liveness check: does nothing but confirms an owner is listening.
    Ping,
    SetMode(DriverMode),
    SetActiveArea(ActiveArea),
}

/// The owner's reply to a [`Request`].
#[derive(Clone, Copy, Debug, PartialEq, Eq, Structural)]
pub enum Response {
    /// The owner accepted (and, for a config write, applied) the request.
    Accepted,
    /// The owner received the request but could not decode it.
    Rejected,
}

/// The all-zero area sent in the area slot of requests that carry none.
pub open spec fn zero_area() -> ActiveArea {
    ActiveArea { x: 0, y: 0, w: 0, h: 0, rotation: 0 }
}

/// Little-endian bytes of a 32-bit word.
pub open spec fn le_bytes(v: u32) -> Seq<u8> {
    seq![(v & 0xff) as u8, ((v >> 8u32) & 0xff) as u8, ((v >> 16u32) & 0xff) as u8, ((v >> 24u32) & 0xff) as u8]
}

/// The 32-bit word whose little-endian bytes are `b0 b1 b2 b3`.
pub open spec fn word_of(b0: u8, b1: u8, b2: u8, b3: u8) -> u32 {
    (b0 as u32) | ((b1 as u32) << 8u32) | ((b2 as u32) << 16u32) | ((b3 as u32) << 24u32)
}

/// Wire byte of a driver mode.
pub open spec fn mode_byte(mode: DriverMode) -> u8 {
    match mode {
        DriverMode::Absolute => 0,
        DriverMode::Relative => 1,
    }
}

/// Driver mode carried by a wire byte, if any.
pub open spec fn mode_of_byte(byte: u8) -> Option<DriverMode> {
    if byte == 0 {
        Some(DriverMode::Absolute)
    } else if byte == 1 {
        Some(DriverMode::Relative)
    } else {
        None
    }
}

/// Tag byte of a request.
pub open spec fn request_tag(r: Request) -> u8 {
    match r {
        Request::Ping => 0,
        Request::SetMode(_) => 1,
        Request::SetActiveArea(_) => 2,
    }
}

/// Second byte of an encoded request: the mode for `SetMode`, zero otherwise.
pub open spec fn request_mode_byte(r: Request) -> u8 {
    match r {
        Request::SetMode(m) => mode_byte(m),
        _ => 0,
    }
}

/// Area carried in bytes 4..24 of an encoded request: zero unless `SetActiveArea`.
pub open spec fn request_area(r: Request) -> ActiveArea {
    match r {
        Request::SetActiveArea(a) => a,
        _ => zero_area(),
    }
}

/// The 24 bytes of an encoded request: tag, mode byte, two zero padding
/// bytes, then x, y, w, h and rotation, each as 4 little-endian bytes.
pub open spec fn encode_request(r: Request) -> Seq<u8> {
    let a = request_area(r);
    seq![request_tag(r), request_mode_byte(r), 0u8, 0u8] + le_bytes(a.x) + le_bytes(a.y)
        + le_bytes(a.w) + le_bytes(a.h) + le_bytes(a.rotation)
}

/// The area whose fields are the little-endian words at bytes 4..24 of `b`.
pub open spec fn area_of_bytes(b: Seq<u8>) -> ActiveArea {
    ActiveArea {
        x: word_of(b[4], b[5], b[6], b[7]),
        y: word_of(b[8], b[9], b[10], b[11]),
        w: word_of(b[12], b[13], b[14], b[15]),
        h: word_of(b[16], b[17], b[18], b[19]),
        rotation: word_of(b[20], b[21], b[22], b[23]),
    }
}

/// The request a 24-byte buffer decodes to: tag 0 is `Ping`, tag 1 is
/// `SetMode` when the mode byte is 0 or 1, tag 2 is `SetActiveArea`;
/// anything else is undecodable.
pub open spec fn decode_request(b: Seq<u8>) -> Option<Request> {
    if b[0] == 0 {
        Some(Request::Ping)
    } else if b[0] == 1 {
        match mode_of_byte(b[1]) {
            Some(m) => Some(Request::SetMode(m)),
            None => None,
        }
    } else if b[0] == 2 {
        Some(Request::SetActiveArea(area_of_bytes(b)))
    } else {
        None
    }
}

/// The byte of an encoded response.
pub open spec fn response_byte(r: Response) -> u8 {
    match r {
        Response::Accepted => 0,
        Response::Rejected => 1,
    }
}

/// The response a one-byte buffer decodes to.
pub open spec fn decode_response(b: u8) -> Option<Response> {
    if b == 0 {
        Some(Response::Accepted)
    } else if b == 1 {
        Some(Response::Rejected)
    } else {
        None
    }
}

proof fn lemma_word_round_trip(v: u32)
    ensures
        word_of(le_bytes(v)[0], le_bytes(v)[1], le_bytes(v)[2], le_bytes(v)[3]) == v,
{
    let b0 = (v & 0xff) as u8;
    let b1 = ((v >> 8u32) & 0xff) as u8;
    let b2 = ((v >> 16u32) & 0xff) as u8;
    let b3 = ((v >> 24u32) & 0xff) as u8;
    assert((b0 as u32) | ((b1 as u32) << 8u32) | ((b2 as u32) << 16u32) | ((b3 as u32) << 24u32)
        == v) by (bit_vector)
        requires
            b0 == (v & 0xff) as u8,
            b1 == ((v >> 8u32) & 0xff) as u8,
            b2 == ((v >> 16u32) & 0xff) as u8,
            b3 == ((v >> 24u32) & 0xff) as u8,
    ;
}

fn word_to_le(v: u32) -> (b: (u8, u8, u8, u8))
    ensures
        le_bytes(v) == seq![b.0, b.1, b.2, b.3],
{
    ((v & 0xff) as u8, ((v >> 8) & 0xff) as u8, ((v >> 16) & 0xff) as u8, ((v >> 24) & 0xff) as u8)
}

fn word_from_le(b0: u8, b1: u8, b2: u8, b3: u8) -> (v: u32)
    ensures
        v == word_of(b0, b1, b2, b3),
{
    (b0 as u32) | ((b1 as u32) << 8) | ((b2 as u32) << 16) | ((b3 as u32) << 24)
}

/// Wire byte of a driver mode: 0 for absolute, 1 for relative.
pub fn mode_to_byte(mode: DriverMode) -> (byte: u8)
    ensures
        byte == mode_byte(mode),
{
    match mode {
        DriverMode::Absolute => 0,
        DriverMode::Relative => 1,
    }
}

/// Driver mode carried by a wire byte; `None` for any byte but 0 and 1.
pub fn byte_to_mode(byte: u8) -> (mode: Option<DriverMode>)
    ensures
        mode == mode_of_byte(byte),
{
    match byte {
        0 => Some(DriverMode::Absolute),
        1 => Some(DriverMode::Relative),
        _ => None,
    }
}

impl Request {
    /// Encodes the request into its fixed 24-byte wire form.
    pub fn encode(self) -> (buf: [u8; REQUEST_SIZE])
        ensures
            buf@ == encode_request(self),
    {
        let (tag, mode_byte, area) = match self {
            Request::Ping => (0u8, 0u8, ActiveArea { x: 0, y: 0, w: 0, h: 0, rotation: 0 }),
            Request::SetMode(mode) => (
                1u8,
                mode_to_byte(mode),
                ActiveArea { x: 0, y: 0, w: 0, h: 0, rotation: 0 },
            ),
            Request::SetActiveArea(area) => (2u8, 0u8, area),
        };
        let (x0, x1, x2, x3) = word_to_le(area.x);
        let (y0, y1, y2, y3) = word_to_le(area.y);
        let (w0, w1, w2, w3) = word_to_le(area.w);
        let (h0, h1, h2, h3) = word_to_le(area.h);
        let (r0, r1, r2, r3) = word_to_le(area.rotation);
        let buf = [
            tag, mode_byte, 0, 0, x0, x1, x2, x3, y0, y1, y2, y3, w0, w1, w2, w3, h0, h1, h2, h3,
            r0, r1, r2, r3,
        ];
        assert(buf@ =~= encode_request(self));
        buf
    }

    /// Decodes a 24-byte wire buffer; `None` when the tag or the mode byte
    /// is unknown. The two padding bytes, and the area bytes of requests
    /// that carry no area, are ignored.
    pub fn decode(buf: [u8; REQUEST_SIZE]) -> (r: Option<Request>)
        ensures
            r == decode_request(buf@),
    {
        let tag = buf[0];
        if tag == 0 {
            Some(Request::Ping)
        } else if tag == 1 {
            match byte_to_mode(buf[1]) {
                Some(m) => Some(Request::SetMode(m)),
                None => None,
            }
        } else if tag == 2 {
            let area = ActiveArea {
                x: word_from_le(buf[4], buf[5], buf[6], buf[7]),
                y: word_from_le(buf[8], buf[9], buf[10], buf[11]),
                w: word_from_le(buf[12], buf[13], buf[14], buf[15]),
                h: word_from_le(buf[16], buf[17], buf[18], buf[19]),
                rotation: word_from_le(buf[20], buf[21], buf[22], buf[23]),
            };
            Some(Request::SetActiveArea(area))
        } else {
            None
        }
    }
}

impl Response {
    /// Encodes the response into its single wire byte.
    pub fn encode(self) -> (buf: [u8; RESPONSE_SIZE])
        ensures
            buf@ == seq![response_byte(self)],
    {
        let buf = match self {
            Response::Accepted => [0u8],
            Response::Rejected => [1u8],
        };
        assert(buf@ =~= seq![response_byte(self)]);
        buf
    }

    /// Decodes a one-byte wire buffer; `None` for any byte but 0 and 1.
    pub fn decode(buf: [u8; RESPONSE_SIZE]) -> (r: Option<Response>)
        ensures
            r == decode_response(buf@[0]),
    {
        let tag = buf[0];
        if tag == 0 {
            Some(Response::Accepted)
        } else if tag == 1 {
            Some(Response::Rejected)
        } else {
            None
        }
    }
}

/// What the HID owner must do with a request it has decoded: nothing for a
/// `Ping`, otherwise apply exactly one config write.
#[derive(Clone, Copy, Debug, PartialEq, Eq, Structural)]
pub enum HandlerCall {
    SetMode(DriverMode),
    SetActiveArea(ActiveArea),
}

/// The config write a decoded request asks for, if any.
pub open spec fn handler_call_for(r: Option<Request>) -> Option<HandlerCall> {
    match r {
        Some(Request::SetMode(m)) => Some(HandlerCall::SetMode(m)),
        Some(Request::SetActiveArea(a)) => Some(HandlerCall::SetActiveArea(a)),
        _ => None,
    }
}

/// The reply owed to a received request buffer: accepted exactly when it decodes.
pub open spec fn reply_for(b: Seq<u8>) -> Response {
    if decode_request(b) is Some {
        Response::Accepted
    } else {
        Response::Rejected
    }
}

/// Owner side of one connection: decodes the received buffer and says which
/// reply to send and which config write (if any) to hand to the handler.
pub fn handle_request(buf: [u8; REQUEST_SIZE]) -> (out: (Response, Option<HandlerCall>))
    ensures
        out.0 == reply_for(buf@),
        out.1 == handler_call_for(decode_request(buf@)),
{
    match Request::decode(buf) {
        Some(Request::Ping) => (Response::Accepted, None),
        Some(Request::SetMode(mode)) => (Response::Accepted, Some(HandlerCall::SetMode(mode))),
        Some(Request::SetActiveArea(area)) => (
            Response::Accepted,
            Some(HandlerCall::SetActiveArea(area)),
        ),
        None => (Response::Rejected, None),
    }
}

proof fn lemma_bytes_round_trip(b0: u8, b1: u8, b2: u8, b3: u8)
    ensures
        le_bytes(word_of(b0, b1, b2, b3)) == seq![b0, b1, b2, b3],
{
    let v = word_of(b0, b1, b2, b3);
    assert((v & 0xff) as u8 == b0 && ((v >> 8u32) & 0xff) as u8 == b1 && ((v >> 16u32) & 0xff) as u8
        == b2 && ((v >> 24u32) & 0xff) as u8 == b3) by (bit_vector)
        requires
            v == (b0 as u32) | ((b1 as u32) << 8u32) | ((b2 as u32) << 16u32) | ((b3 as u32) << 24u32),
    ;
    assert(le_bytes(v) =~= seq![b0, b1, b2, b3]);
}

proof fn lemma_area_round_trip(a: ActiveArea, r: Request)
    requires
        request_area(r) == a,
    ensures
        area_of_bytes(encode_request(r)) == a,
{
    lemma_word_round_trip(a.x);
    lemma_word_round_trip(a.y);
    lemma_word_round_trip(a.w);
    lemma_word_round_trip(a.h);
    lemma_word_round_trip(a.rotation);
    let e = encode_request(r);
    assert(e.subrange(4, 8) =~= le_bytes(a.x));
    assert(e.subrange(8, 12) =~= le_bytes(a.y));
    assert(e.subrange(12, 16) =~= le_bytes(a.w));
    assert(e.subrange(16, 20) =~= le_bytes(a.h));
    assert(e.subrange(20, 24) =~= le_bytes(a.rotation));
}

/// Every request survives the wire: its encoding is 24 bytes long and
/// decodes back to the same request.
pub proof fn lemma_request_round_trip(r: Request)
    ensures
        encode_request(r).len() == REQUEST_SIZE,
        decode_request(encode_request(r)) == Some(r),
{
    lemma_area_round_trip(request_area(r), r);
}

/// Distinct requests have distinct encodings.
pub proof fn lemma_request_encoding_injective(r1: Request, r2: Request)
    requires
        encode_request(r1) == encode_request(r2),
    ensures
        r1 == r2,
{
    lemma_request_round_trip(r1);
    lemma_request_round_trip(r2);
}

/// A buffer that decodes to a request agrees with that request's encoding
/// on every byte the decoder reads: the tag, the mode byte of `SetMode`,
/// and the twenty area bytes of `SetActiveArea`.
pub proof fn lemma_decode_reads_only_meaningful_bytes(b: Seq<u8>, r: Request)
    requires
        b.len() == REQUEST_SIZE,
        decode_request(b) == Some(r),
    ensures
        encode_request(r)[0] == b[0],
        r is SetMode ==> encode_request(r)[1] == b[1],
        r is SetActiveArea ==> encode_request(r).subrange(4, 24) == b.subrange(4, 24),
{
    if r is SetActiveArea {
        let a = area_of_bytes(b);
        lemma_bytes_round_trip(b[4], b[5], b[6], b[7]);
        lemma_bytes_round_trip(b[8], b[9], b[10], b[11]);
        lemma_bytes_round_trip(b[12], b[13], b[14], b[15]);
        lemma_bytes_round_trip(b[16], b[17], b[18], b[19]);
        lemma_bytes_round_trip(b[20], b[21], b[22], b[23]);
        assert(encode_request(r).subrange(4, 24) =~= b.subrange(4, 24));
    }
}

/// Whatever a reader sends through [`Request::encode`] is accepted by the
/// owner, which hands the handler exactly the config write it asked for
/// (nothing for a `Ping`).
pub proof fn lemma_encoded_request_is_applied(r: Request)
    ensures
        reply_for(encode_request(r)) == Response::Accepted,
        handler_call_for(decode_request(encode_request(r))) == match r {
            Request::Ping => None,
            Request::SetMode(m) => Some(HandlerCall::SetMode(m)),
            Request::SetActiveArea(a) => Some(HandlerCall::SetActiveArea(a)),
        },
{
    lemma_request_round_trip(r);
}

/// Responses survive the wire, and every byte that decodes is the encoding
/// of what it decodes to.
pub proof fn lemma_response_round_trip(r: Response, b: u8)
    ensures
        decode_response(response_byte(r)) == Some(r),
        decode_response(b) matches Some(d) ==> response_byte(d) == b,
        decode_response(b) is Some <==> b < 2,
{
}

} // verus!
