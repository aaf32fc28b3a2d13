//! Wire protocol of the remote file bridge.
//!
//! Every message travels as a single binary frame: a four-byte
//! little-endian length prefix, a self-describing header of exactly that
//! many bytes, and any raw trailing payload (file content on read
//! responses).  Each request carries a fresh random identifier that the
//! response echoes.  This module fixes the framing — encoding, decoding and
//! their round trip — and the meaning of a response, as plain decisions on
//! bytes and fields; the embedding program turns header bytes into and out
//! of their textual form and moves frames over the socket.

use vstd::prelude::*;
use vstd::bytes::lemma_auto_spec_u32_to_from_le_bytes;
use vstd::bytes::spec_u32_from_le_bytes;
use vstd::bytes::spec_u32_to_le_bytes;
use vstd::bytes::u32_from_le_bytes;
use vstd::bytes::u32_to_le_bytes;
use vstd::slice::slice_subrange;
use vstd::slice::slice_to_vec;
use vstd::string::StringExecFns;
use crate::errors::FileError;
use crate::MAX_BUFFER_SIZE;

verus! {

/// A request to the remote peer, identified for response demultiplexing.
pub enum FSRequest {
    /// Read up to `size` bytes at `offset` of the file at `path`.
    Read { id: String, path: String, size: usize, offset: usize },
    /// Write `data` at `offset` of the file at `path`.
    Write { id: String, path: String, offset: usize, data: Vec<u8> },
}

impl FSRequest {
    /// The identifier the request carries, echoed by its response.
    pub open spec fn spec_id(&self) -> Seq<char> {
        match self {
            FSRequest::Read { id, .. } => id@,
            FSRequest::Write { id, .. } => id@,
        }
    }

    /// The identifier the request carries, echoed by its response.
    pub fn get_id(&self) -> (r: &str)
        ensures
            r@ == self.spec_id(),
    {
        match self {
            FSRequest::Read { id, .. } => id.as_str(),
            FSRequest::Write { id, .. } => id.as_str(),
        }
    }
}

/// A response header from the remote peer.
pub struct FSResponse {
    /// Echo of the request's identifier.
    pub id: String,
    /// Whether the peer carried the operation out.
    pub success: bool,
    /// Descriptor field some peers answer an open with.
    pub fd: Option<i32>,
    /// How many bytes a read returned.
    pub bytes_read: Option<usize>,
    /// How many bytes a write took.
    pub bytes_written: Option<usize>,
    /// Cursor position some peers report.
    pub position: Option<i64>,
    /// The peer's report when the operation failed.
    pub error: Option<String>,
}

/// A response header together with the frame's raw trailing payload.
pub struct FSResponseWithBinary {
    /// The decoded header.
    pub response: FSResponse,
    /// File content a read response trails, when any.
    pub binary: Option<Vec<u8>>,
}

/// Failure to decode a binary frame.
#[derive(Clone, Copy, Debug, PartialEq, Eq, Structural)]
pub enum FrameError {
    /// The frame is shorter than its four-byte length prefix.
    MissingPrefix,
    /// The frame ends before the header length its prefix promises.
    TruncatedHeader,
}

/// The frame that carries `header` and `payload`: a four-byte
/// little-endian length prefix, the header, the raw payload.
pub open spec fn spec_encode_frame(header: Seq<u8>, payload: Seq<u8>) -> Seq<u8> {
    spec_u32_to_le_bytes(header.len() as u32) + header + payload
}

/// Header and payload of the frame `data`, or exactly when the frame is
/// too short for its prefix or for the promised header, the failure.
pub open spec fn spec_decode_frame(data: Seq<u8>) -> Result<(Seq<u8>, Seq<u8>), FrameError> {
    if data.len() < 4 {
        Err(FrameError::MissingPrefix)
    } else {
        let n = spec_u32_from_le_bytes(data.subrange(0, 4)) as int;
        if data.len() < 4 + n {
            Err(FrameError::TruncatedHeader)
        } else {
            Ok((data.subrange(4, 4 + n), data.subrange(4 + n, data.len() as int)))
        }
    }
}

/// A decoded frame: self-describing header bytes and raw trailing payload.
pub struct Frame {
    /// The self-describing header, as many bytes as the prefix promised.
    pub header: Vec<u8>,
    /// Whatever follows the header: raw file content on read responses.
    pub payload: Vec<u8>,
}

/// Appends a copy of `src` to `dst`.
fn append_bytes(dst: &mut Vec<u8>, src: &Vec<u8>)
    ensures
        final(dst)@ == old(dst)@ + src@,
{
    let mut i: usize = 0;
    while i < src.len()
        invariant
            i <= src@.len(),
            dst@ == old(dst)@ + src@.subrange(0, i as int),
        decreases src@.len() - i,
    {
        dst.push(src[i]);
        proof {
            assert(dst@ =~= old(dst)@ + src@.subrange(0, i as int + 1));
        }
        i = i + 1;
    }
    proof {
        assert(dst@ =~= old(dst)@ + src@);
    }
}

/// Builds the outbound frame for `header` and `payload`.
pub fn encode_frame(header: &Vec<u8>, payload: &Vec<u8>) -> (r: Vec<u8>)
    requires
        header@.len() <= u32::MAX,
    ensures
        r@ == spec_encode_frame(header@, payload@),
{
    let mut r = u32_to_le_bytes(header.len() as u32);
    append_bytes(&mut r, header);
    append_bytes(&mut r, payload);
    proof {
        assert(r@ =~= spec_encode_frame(header@, payload@));
    }
    r
}

/// Splits an inbound frame into header and payload, or reports exactly
/// why the frame is too short.
pub fn decode_frame(data: &Vec<u8>) -> (r: Result<Frame, FrameError>)
    ensures
        match r {
            Ok(f) => spec_decode_frame(data@) == Ok::<_, FrameError>((f.header@, f.payload@)),
            Err(e) => spec_decode_frame(data@) == Err::<(Seq<u8>, Seq<u8>), _>(e),
        },
{
    if data.len() < 4 {
        return Err(FrameError::MissingPrefix);
    }
    let prefix = slice_subrange(data.as_slice(), 0, 4);
    let n32 = u32_from_le_bytes(prefix);
    let n = n32 as usize;
    if data.len() - 4 < n {
        return Err(FrameError::TruncatedHeader);
    }
    let header = slice_to_vec(slice_subrange(data.as_slice(), 4, 4 + n));
    let payload = slice_to_vec(slice_subrange(data.as_slice(), 4 + n, data.len()));
    Ok(Frame { header, payload })
}

/// Law: decoding an encoded frame returns exactly the header and payload
/// that were framed.
pub proof fn lemma_frame_round_trip(header: Seq<u8>, payload: Seq<u8>)
    requires
        header.len() <= u32::MAX,
    ensures
        spec_decode_frame(spec_encode_frame(header, payload)) == Ok::<_, FrameError>(
            (header, payload),
        ),
{
    lemma_auto_spec_u32_to_from_le_bytes();
    let data = spec_encode_frame(header, payload);
    assert(data.subrange(0, 4) =~= spec_u32_to_le_bytes(header.len() as u32));
    assert(spec_u32_from_le_bytes(data.subrange(0, 4)) == header.len() as u32);
    let n = header.len() as int;
    assert(data.subrange(4, 4 + n) =~= header);
    assert(data.subrange(4 + n, data.len() as int) =~= payload);
}

/// Relies on uuid's version-4 generator: `Uuid::new_v4().to_string()`
/// formats a fresh random identifier as 36 hyphenated hex characters.
#[verifier::external_body]
fn fresh_request_id() -> (r: String)
    ensures
        r@.len() == 36,
{
    uuid::Uuid::new_v4().to_string()
}

/// The bounded full-file read request an open sends on a cache miss: up
/// to the transfer cap, from the start of `path`, under a fresh
/// identifier.
pub fn open_fetch_request(path: &String) -> (r: FSRequest)
    ensures
        r matches FSRequest::Read { id, path: p, size, offset } && p@ == path@ && size
            == MAX_BUFFER_SIZE && offset == 0 && id@.len() == 36,
{
    FSRequest::Read {
        id: fresh_request_id(),
        path: path.clone(),
        size: MAX_BUFFER_SIZE,
        offset: 0,
    }
}

/// The write-through request a write sends: the whole buffer at offset
/// zero of `path`, under a fresh identifier.
pub fn write_request(path: &String, data: Vec<u8>) -> (r: FSRequest)
    ensures
        r matches FSRequest::Write { id, path: p, offset, data: d } && p@ == path@ && offset == 0
            && d@ == data@ && id@.len() == 36,
{
    FSRequest::Write { id: fresh_request_id(), path: path.clone(), offset: 0, data }
}

/// Pairs a decoded response header with the frame's trailing payload: an
/// empty payload means no binary content.
pub fn with_binary(response: FSResponse, payload: Vec<u8>) -> (r: FSResponseWithBinary)
    ensures
        r.response == response,
        payload@.len() == 0 ==> r.binary is None,
        payload@.len() > 0 ==> (r.binary matches Some(b) && b@ == payload@),
{
    if payload.len() == 0 {
        FSResponseWithBinary { response, binary: None }
    } else {
        FSResponseWithBinary { response, binary: Some(payload) }
    }
}

/// How many bytes a response reports read; a missing field means none.
pub open spec fn spec_bytes_read(resp: FSResponse) -> int {
    match resp.bytes_read {
        Some(n) => n as int,
        None => 0,
    }
}

/// What an open's fetch response means: `Ok(Some(bytes))` to cache, `Ok(None)`
/// when the remote file was empty and there is nothing to cache, or the
/// failure to surface — exactly when the peer reports failure or promises
/// bytes that the frame does not carry.
pub fn open_read_outcome(resp: &FSResponse, binary: Option<Vec<u8>>) -> (r: Result<
    Option<Vec<u8>>,
    FileError,
>)
    ensures
        !resp.success ==> (r matches Err(FileError::ReadFailed(m)) && m@ == match resp.error {
            Some(e) => e@,
            None => "Unknown read error"@,
        }),
        resp.success && spec_bytes_read(*resp) > 0 && binary is None ==> (r matches Err(
            FileError::ReadFailed(m),
        ) && m@ == "No binary data received"@),
        resp.success && spec_bytes_read(*resp) > 0 ==> (binary matches Some(b) ==> (r matches Ok(
            o,
        ) && o matches Some(d) && d == b)),
        resp.success && spec_bytes_read(*resp) == 0 ==> (r matches Ok(o) && o is None),
{
    if !resp.success {
        let m = match &resp.error {
            Some(e) => e.clone(),
            None => String::from_str("Unknown read error"),
        };
        return Err(FileError::ReadFailed(m));
    }
    let n = match resp.bytes_read {
        Some(n) => n,
        None => 0,
    };
    if n > 0 {
        match binary {
            Some(d) => Ok(Some(d)),
            None => Err(FileError::ReadFailed(String::from_str("No binary data received"))),
        }
    } else {
        Ok(None)
    }
}

/// Whether a write-through may update the local cache: only a success the
/// remote peer acknowledged is cached, never a failure.
pub fn write_should_cache(resp: &FSResponse) -> (r: bool)
    ensures
        r == resp.success,
{
    resp.success
}

/// The count a write reports: the whole buffer once the remote peer
/// acknowledged and the cache copy was updated, nothing otherwise.
pub fn write_outcome(success: bool, cache_ok: bool, len: usize) -> (r: Option<usize>)
    ensures
        r == if success && cache_ok {
            Some(len)
        } else {
            None::<usize>
        },
{
    if success && cache_ok {
        Some(len)
    } else {
        None
    }
}

} // verus!
