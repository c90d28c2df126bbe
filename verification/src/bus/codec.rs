//! Bus framing: a 4-byte big-endian length followed by the encoded
//! message, bounded by [`MAX_FRAME_SIZE`].

use vstd::prelude::*;
use crate::text::{decimal, push_decimal};

verus! {

/// `std::io::Error`, carried opaquely.
#[verifier::external_type_specification]
#[verifier::external_body]
pub struct ExIoError(std::io::Error);

/// The kinds of I/O failure the bus and the buffer service tell apart.
#[derive(Clone, Copy, Debug, PartialEq, Eq, Structural)]
pub enum IoErrorKind {
    NotFound,
    PermissionDenied,
    BrokenPipe,
    ConnectionReset,
    ConnectionAborted,
    UnexpectedEof,
    NotConnected,
    OutOfMemory,
    Other,
}

/// `io::Error::kind()`, mapped onto [`IoErrorKind`] (kinds not listed
/// there become `Other`). The kind is whatever the operating system or
/// the error's creator reported; nothing is stated of it.
#[verifier::external_body]
pub(crate) fn io_error_kind(e: &std::io::Error) -> IoErrorKind {
    match e.kind() {
        std::io::ErrorKind::NotFound => IoErrorKind::NotFound,
        std::io::ErrorKind::PermissionDenied => IoErrorKind::PermissionDenied,
        std::io::ErrorKind::BrokenPipe => IoErrorKind::BrokenPipe,
        std::io::ErrorKind::ConnectionReset => IoErrorKind::ConnectionReset,
        std::io::ErrorKind::ConnectionAborted => IoErrorKind::ConnectionAborted,
        std::io::ErrorKind::UnexpectedEof => IoErrorKind::UnexpectedEof,
        std::io::ErrorKind::NotConnected => IoErrorKind::NotConnected,
        std::io::ErrorKind::OutOfMemory => IoErrorKind::OutOfMemory,
        _ => IoErrorKind::Other,
    }
}

/// `io::Error::other(msg)`: an error of kind `Other` carrying `msg`.
#[verifier::external_body]
pub(crate) fn io_error_other(msg: String) -> std::io::Error {
    std::io::Error::other(msg)
}

/// `io::Error::new(ErrorKind::UnexpectedEof, msg)`.
#[verifier::external_body]
pub(crate) fn io_error_unexpected_eof(msg: String) -> std::io::Error {
    std::io::Error::new(std::io::ErrorKind::UnexpectedEof, msg)
}

/// Maximum frame payload in bytes.
pub const MAX_FRAME_SIZE: usize = 65536;

/// Headroom kept between [`MAX_FRAME_SIZE`] and the largest event
/// accepted at ingest, so that the same event still fits once wrapped
/// in an event-inspection response.
pub const RESPONSE_WRAPPER_HEADROOM: usize = 256;

/// Maximum encoded size of an event at ingest.
pub const MAX_EVENT_INGEST_FRAME: usize = MAX_FRAME_SIZE - RESPONSE_WRAPPER_HEADROOM;

/// Why a frame could not be written or read.
#[derive(Debug)]
pub enum CodecError {
    Io(std::io::Error),
    FrameTooLarge { size: usize, max: usize },
    Encode(String),
    Decode(String),
}

/// The 4-byte big-endian encoding of `n`.
pub open spec fn be32(n: nat) -> Seq<u8> {
    seq![
        ((n / 0x100_0000) % 0x100) as u8,
        ((n / 0x1_0000) % 0x100) as u8,
        ((n / 0x100) % 0x100) as u8,
        (n % 0x100) as u8,
    ]
}

/// The length a 4-byte big-endian prefix encodes.
pub open spec fn be32_value(b: Seq<u8>) -> nat {
    (b[0] as nat) * 0x100_0000 + (b[1] as nat) * 0x1_0000 + (b[2] as nat) * 0x100 + (b[3] as nat)
}

/// The length prefix round-trips: the four big-endian bytes of any
/// length below 2^32 read back as that length.
pub proof fn lemma_be32_round_trip(n: nat)
    requires
        n < 0x1_0000_0000,
    ensures
        be32(n).len() == 4,
        be32_value(be32(n)) == n,
{
    let x = n as u64;
    assert(((x / 0x100_0000) % 0x100) * 0x100_0000 + ((x / 0x1_0000) % 0x100) * 0x1_0000 + ((x / 0x100) % 0x100)
        * 0x100 + (x % 0x100) == x) by (bit_vector)
        requires
            x < 0x1_0000_0000u64,
    ;
    let b = be32(n);
    assert(b[0] as nat == (n / 0x100_0000) % 0x100);
    assert(b[1] as nat == (n / 0x1_0000) % 0x100);
    assert(b[2] as nat == (n / 0x100) % 0x100);
    assert(b[3] as nat == n % 0x100);
}

/// Framing round-trips: the first four bytes of a frame written by
/// [`encode_frame`] decode to the payload's length, within the limit,
/// and the payload follows them unchanged.
pub proof fn lemma_frame_round_trip(payload: Seq<u8>, frame: Seq<u8>)
    requires
        payload.len() <= MAX_FRAME_SIZE,
        frame == be32(payload.len()) + payload,
    ensures
        be32_value(frame.subrange(0, 4)) == payload.len(),
        be32_value(frame.subrange(0, 4)) <= MAX_FRAME_SIZE,
        frame.subrange(4, frame.len() as int) == payload,
{
    lemma_be32_round_trip(payload.len());
    assert(frame.subrange(0, 4) =~= be32(payload.len()));
    assert(frame.subrange(4, frame.len() as int) =~= payload);
}

/// Frame an encoded message: its length as four big-endian bytes, then
/// the bytes. Payloads over [`MAX_FRAME_SIZE`] are refused.
pub fn encode_frame(payload: &[u8]) -> (r: Result<Vec<u8>, CodecError>)
    ensures
        payload@.len() > MAX_FRAME_SIZE ==> (r matches Err(CodecError::FrameTooLarge { size, max })
            && size == payload@.len() && max == MAX_FRAME_SIZE),
        payload@.len() <= MAX_FRAME_SIZE ==> (r matches Ok(frame) && frame@ == be32(payload@.len()) + payload@),
{
    let n = payload.len();
    if n > MAX_FRAME_SIZE {
        return Err(CodecError::FrameTooLarge { size: n, max: MAX_FRAME_SIZE });
    }
    let mut out: Vec<u8> = Vec::new();
    out.push(((n / 0x100_0000) % 0x100) as u8);
    out.push(((n / 0x1_0000) % 0x100) as u8);
    out.push(((n / 0x100) % 0x100) as u8);
    out.push((n % 0x100) as u8);
    let mut i: usize = 0;
    while i < n
        invariant
            n == payload@.len(),
            i <= n,
            out@ == be32(n as nat) + payload@.subrange(0, i as int),
        decreases n - i,
    {
        out.push(payload[i]);
        i = i + 1;
        assert(out@ =~= be32(n as nat) + payload@.subrange(0, i as int));
    }
    assert(payload@.subrange(0, n as int) =~= payload@);
    Ok(out)
}

/// Read the payload length from a frame's 4-byte prefix. Lengths over
/// [`MAX_FRAME_SIZE`] are refused.
pub fn decode_frame_length(prefix: [u8; 4]) -> (r: Result<usize, CodecError>)
    ensures
        be32_value(prefix@) > MAX_FRAME_SIZE ==> (r matches Err(CodecError::FrameTooLarge { size, max })
            && size == be32_value(prefix@) && max == MAX_FRAME_SIZE),
        be32_value(prefix@) <= MAX_FRAME_SIZE ==> r == Ok::<usize, CodecError>(be32_value(prefix@) as usize),
{
    let n: u64 = (prefix[0] as u64) * 0x100_0000 + (prefix[1] as u64) * 0x1_0000 + (prefix[2] as u64) * 0x100
        + (prefix[3] as u64);
    if n > 65536 {
        return Err(CodecError::FrameTooLarge { size: n as usize, max: MAX_FRAME_SIZE });
    }
    Ok(n as usize)
}

/// Human-readable message of the frame-size error.
pub open spec fn spec_frame_too_large_message(size: usize, max: usize) -> Seq<char> {
    "frame too large: "@ + decimal(size as nat) + " bytes (max "@ + decimal(max as nat) + ")"@
}

impl CodecError {
    /// The message of a frame-size error (other kinds carry an outside
    /// error or text of their own and are rendered by the caller).
    pub fn frame_too_large_message(size: usize, max: usize) -> (s: String)
        ensures
            s@ == spec_frame_too_large_message(size, max),
    {
        let mut s = String::from_str("frame too large: ");
        push_decimal(&mut s, size as u64);
        s.append(" bytes (max ");
        push_decimal(&mut s, max as u64);
        s.append(")");
        s
    }
}

} // verus!
