//! Encoding a serialized message into a frame, and decoding it back.

use vstd::prelude::*;
use bytes::BytesMut;
use crate::buffer::{advance, buffer_bytes, contents, extend_from_slice, put_u32};
use crate::deflate::{gunzip, gunzip_of, gzip, gzip_of};
use crate::header::{
    be_bytes, be_value, decode_header, encode_header, header_flag, header_length,
    lemma_be_round_trip, lemma_header_round_trip, pack_header, read_be_u32, COMPRESSION_BIT,
    LEN_SIZE,
};

verus! {

/// The largest serialized message that a frame may carry, in bytes.
pub const MAX_FRAME: usize = 0x8000_0000;

/// Messages longer than this many bytes are compressed.
pub const COMPRESSION_LIMIT: usize = 1436;

/// Why a frame could not be encoded or decoded.
#[derive(Debug, Clone, Copy, PartialEq, Eq, Structural)]
pub enum FrameError {
    /// The message, or its compressed form, is too long for a frame.
    FrameTooLarge,
    /// The message could not be serialized.
    EncodeFailure,
    /// The compressor failed on the serialized message.
    CompressionFailure,
    /// The payload is not a valid serialized message.
    DecodeFailure,
    /// The compressed payload could not be inflated.
    DecompressionFailure,
    /// The buffer holds fewer bytes than the header announces.
    TruncatedInput,
}

/// The four header bytes for a payload of `length` bytes.
pub open spec fn header_bytes(length: nat, compressed: bool) -> Seq<u8> {
    be_bytes(pack_header(length, compressed) as u32)
}

/// The frame that carries the serialized message `m`: raw up to the
/// compression limit, gzip-compressed above it.
pub open spec fn frame_of(m: Seq<u8>) -> Seq<u8> {
    if m.len() <= COMPRESSION_LIMIT {
        header_bytes(m.len(), false) + m
    } else {
        header_bytes(gzip_of(m).len(), true) + gzip_of(m)
    }
}

/// `f` is what a successful encoding of the serialized message `m` writes.
pub open spec fn encodes(m: Seq<u8>, f: Seq<u8>) -> bool {
    &&& f == frame_of(m)
    &&& m.len() <= MAX_FRAME
    &&& m.len() > COMPRESSION_LIMIT ==> gzip_of(m).len() < COMPRESSION_BIT && gunzip_of(gzip_of(m))
        == Some(m)
}

/// The outcome of decoding the frame at the start of `s`: the serialized
/// message and the number of bytes that the frame takes, or the error.
pub open spec fn parse_frame(s: Seq<u8>) -> Result<(Seq<u8>, nat), FrameError> {
    if s.len() < LEN_SIZE {
        Err(FrameError::TruncatedInput)
    } else {
        let len = header_length(be_value(s));
        if len > s.len() - LEN_SIZE {
            Err(FrameError::TruncatedInput)
        } else {
            let payload = s.subrange(LEN_SIZE as int, LEN_SIZE + len);
            if header_flag(be_value(s)) {
                match gunzip_of(payload) {
                    Some(m) => Ok((m, (LEN_SIZE + len) as nat)),
                    None => Err(FrameError::DecompressionFailure),
                }
            } else {
                Ok((payload, (LEN_SIZE + len) as nat))
            }
        }
    }
}

/// Appends the frame for the serialized message `msg` to `buf`. On an error
/// `buf` is left as it was.
pub fn encode_frame(msg: &[u8], buf: &mut BytesMut) -> (r: Result<(), FrameError>)
    requires
        buffer_bytes(*old(buf)).len() + LEN_SIZE + MAX_FRAME <= isize::MAX,
    ensures
        msg@.len() > MAX_FRAME ==> r == Err::<(), FrameError>(FrameError::FrameTooLarge),
        msg@.len() <= COMPRESSION_LIMIT ==> r is Ok,
        r is Ok ==> encodes(msg@, frame_of(msg@)),
        r is Ok ==> buffer_bytes(*final(buf)) == buffer_bytes(*old(buf)) + frame_of(msg@),
        r is Err ==> buffer_bytes(*final(buf)) == buffer_bytes(*old(buf)),
        r matches Err(e) ==> match e {
            FrameError::FrameTooLarge => msg@.len() > MAX_FRAME || (msg@.len() > COMPRESSION_LIMIT
                && gzip_of(msg@).len() >= COMPRESSION_BIT),
            FrameError::CompressionFailure => COMPRESSION_LIMIT < msg@.len() <= MAX_FRAME,
            _ => false,
        },
{
    let size = msg.len();
    if size > MAX_FRAME {
        return Err(FrameError::FrameTooLarge);
    }
    if size <= COMPRESSION_LIMIT {
        let header = encode_header(size, false);
        put_u32(buf, header as u32);
        extend_from_slice(buf, msg);
    } else {
        let packed = match gzip(msg) {
            Ok(z) => z,
            Err(_) => return Err(FrameError::CompressionFailure),
        };
        if packed.len() >= COMPRESSION_BIT {
            return Err(FrameError::FrameTooLarge);
        }
        let header = encode_header(packed.len(), true);
        put_u32(buf, header as u32);
        extend_from_slice(buf, packed.as_slice());
    }
    Ok(())
}

/// Takes the frame at the start of `buf` off it and returns the serialized
/// message that the frame carries. On an error `buf` is left as it was.
pub fn decode_frame(buf: &mut BytesMut) -> (r: Result<Vec<u8>, FrameError>)
    ensures
        ({
            let s = buffer_bytes(*old(buf));
            match parse_frame(s) {
                Ok((m, n)) => r is Ok && r->Ok_0@ == m && buffer_bytes(*final(buf)) == s.subrange(
                    n as int,
                    s.len() as int,
                ),
                Err(e) => r == Err::<Vec<u8>, FrameError>(e) && buffer_bytes(*final(buf)) == s,
            }
        }),
{
    let s = contents(buf);
    let available = s.len();
    if available < LEN_SIZE {
        return Err(FrameError::TruncatedInput);
    }
    let header = read_be_u32(s);
    let (len, compressed) = decode_header(header as usize);
    if len > available - LEN_SIZE {
        return Err(FrameError::TruncatedInput);
    }
    let payload = vstd::slice::slice_subrange(s, LEN_SIZE, LEN_SIZE + len);
    let msg = if compressed {
        match gunzip(payload) {
            Ok(v) => v,
            Err(_) => return Err(FrameError::DecompressionFailure),
        }
    } else {
        vstd::slice::slice_to_vec(payload)
    };
    advance(buf, LEN_SIZE + len);
    Ok(msg)
}

/// What follows the header in `f + rest` is the payload of `f`, and the header
/// is read from `f`'s first four bytes.
proof fn lemma_frame_parts(length: nat, compressed: bool, payload: Seq<u8>, rest: Seq<u8>)
    requires
        length < COMPRESSION_BIT,
        payload.len() == length,
    ensures
        ({
            let s = header_bytes(length, compressed) + payload + rest;
            &&& s.len() >= LEN_SIZE
            &&& header_length(be_value(s)) == length
            &&& header_flag(be_value(s)) == compressed
            &&& s.subrange(LEN_SIZE as int, LEN_SIZE + length) == payload
        }),
{
    let h = pack_header(length, compressed);
    lemma_header_round_trip(length, compressed);
    lemma_be_round_trip(h as u32);
    let s = header_bytes(length, compressed) + payload + rest;
    assert(s.subrange(LEN_SIZE as int, LEN_SIZE + length) =~= payload);
}

/// A message of at most `COMPRESSION_LIMIT` bytes is framed without
/// compression, and decoding its frame, whatever follows it, gives the message
/// back and takes exactly the frame.
pub proof fn lemma_round_trip_uncompressed(m: Seq<u8>, rest: Seq<u8>)
    requires
        m.len() <= COMPRESSION_LIMIT,
    ensures
        encodes(m, frame_of(m)),
        !header_flag(be_value(frame_of(m))),
        parse_frame(frame_of(m) + rest) == Ok::<(Seq<u8>, nat), FrameError>((m, frame_of(m).len())),
{
    lemma_frame_parts(m.len(), false, m, rest);
    lemma_frame_parts(m.len(), false, m, Seq::<u8>::empty());
    assert(frame_of(m) + Seq::<u8>::empty() =~= frame_of(m));
}

/// A message longer than `COMPRESSION_LIMIT` bytes that was encoded into `f` is
/// framed with compression, and decoding `f`, whatever follows it, gives the
/// message back and takes exactly `f`.
pub proof fn lemma_round_trip_compressed(m: Seq<u8>, f: Seq<u8>, rest: Seq<u8>)
    requires
        m.len() > COMPRESSION_LIMIT,
        encodes(m, f),
    ensures
        header_flag(be_value(f)),
        parse_frame(f + rest) == Ok::<(Seq<u8>, nat), FrameError>((m, f.len())),
{
    let z = gzip_of(m);
    lemma_frame_parts(z.len(), true, z, rest);
    lemma_frame_parts(z.len(), true, z, Seq::<u8>::empty());
    assert(f + Seq::<u8>::empty() =~= f);
}

/// A buffer whose header announces more payload bytes than follow it is
/// refused as truncated.
pub proof fn lemma_truncated_input(s: Seq<u8>)
    requires
        s.len() >= LEN_SIZE,
        header_length(be_value(s)) > s.len() - LEN_SIZE,
    ensures
        parse_frame(s) == Err::<(Seq<u8>, nat), FrameError>(FrameError::TruncatedInput),
{
}

} // verus!
