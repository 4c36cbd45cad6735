//! The 32-bit frame header: bit 31 flags a compressed payload, bits 0 to 30
//! hold the payload length.

use vstd::prelude::*;

verus! {

/// Width of the header on the wire, in bytes.
pub const LEN_SIZE: usize = 4;

/// The header bit that marks a compressed payload.
pub const COMPRESSION_BIT: usize = 0x8000_0000;

/// Whether the compression bit of `header` is set.
pub open spec fn header_flag(header: nat) -> bool {
    (header / 0x8000_0000) % 2 == 1
}

/// The header with its compression bit cleared.
pub open spec fn header_length(header: nat) -> nat {
    if header_flag(header) {
        (header - 0x8000_0000) as nat
    } else {
        header
    }
}

/// The header that carries `length` and the flag `compressed`.
pub open spec fn pack_header(length: nat, compressed: bool) -> nat {
    if compressed {
        length + 0x8000_0000
    } else {
        length
    }
}

/// Packs a payload length and the compression flag into one header value.
pub fn encode_header(length: usize, compressed: bool) -> (r: usize)
    requires
        length < COMPRESSION_BIT,
    ensures
        r == pack_header(length as nat, compressed),
        r < 0x1_0000_0000,
{
    if compressed {
        assert(length | 0x8000_0000usize == length + 0x8000_0000usize) by (bit_vector)
            requires
                length < 0x8000_0000usize,
        ;
        length | COMPRESSION_BIT
    } else {
        length
    }
}

/// Splits a header value into the payload length and the compression flag.
pub fn decode_header(header: usize) -> (r: (usize, bool))
    ensures
        r.0 == header_length(header as nat),
        r.1 == header_flag(header as nat),
{
    let len = header & !COMPRESSION_BIT;
    let compressed = header & COMPRESSION_BIT == COMPRESSION_BIT;
    assert(compressed == ((header / 0x8000_0000usize) % 2 == 1)) by (bit_vector)
        requires
            compressed == (header & 0x8000_0000usize == 0x8000_0000usize),
    ;
    assert(len == if compressed { (header - 0x8000_0000usize) as usize } else { header })
        by (bit_vector)
        requires
            len == header & !0x8000_0000usize,
            compressed == (header & 0x8000_0000usize == 0x8000_0000usize),
    ;
    (len, compressed)
}

/// Unpacking a packed header gives back the length and the flag, for every
/// length that fits in 31 bits.
pub proof fn lemma_header_round_trip(length: nat, compressed: bool)
    requires
        length < 0x8000_0000,
    ensures
        header_length(pack_header(length, compressed)) == length,
        header_flag(pack_header(length, compressed)) == compressed,
{
    if compressed {
        assert((length + 0x8000_0000) / 0x8000_0000 == 1) by (nonlinear_arith)
            requires
                length < 0x8000_0000,
        ;
    } else {
        assert(length / 0x8000_0000 == 0) by (nonlinear_arith)
            requires
                length < 0x8000_0000,
        ;
    }
}

/// The four bytes of `v`, most significant first.
pub open spec fn be_bytes(v: u32) -> Seq<u8> {
    seq![
        (v / 0x100_0000) as u8,
        ((v / 0x1_0000) % 0x100) as u8,
        ((v / 0x100) % 0x100) as u8,
        (v % 0x100) as u8,
    ]
}

/// The number that the first four bytes of `s` spell, most significant first.
pub open spec fn be_value(s: Seq<u8>) -> nat {
    s[0] as nat * 0x100_0000 + s[1] as nat * 0x1_0000 + s[2] as nat * 0x100 + s[3] as nat
}

/// Reads the first four bytes of `s` as a big-endian number.
pub fn read_be_u32(s: &[u8]) -> (r: u32)
    requires
        s@.len() >= LEN_SIZE,
    ensures
        r as nat == be_value(s@),
{
    let b0 = s[0] as u32;
    let b1 = s[1] as u32;
    let b2 = s[2] as u32;
    let b3 = s[3] as u32;
    assert(b0 * 0x100_0000 + b1 * 0x1_0000 + b2 * 0x100 + b3 < 0x1_0000_0000) by (nonlinear_arith)
        requires
            b0 < 0x100,
            b1 < 0x100,
            b2 < 0x100,
            b3 < 0x100,
    ;
    b0 * 0x100_0000 + b1 * 0x1_0000 + b2 * 0x100 + b3
}

/// The four big-endian bytes of a number read back as that number.
pub proof fn lemma_be_round_trip(v: u32)
    ensures
        be_bytes(v).len() == 4,
        be_value(be_bytes(v)) == v,
{
    assert(v == (v / 0x100_0000) * 0x100_0000 + ((v / 0x1_0000) % 0x100) * 0x1_0000 + ((v / 0x100)
        % 0x100) * 0x100 + v % 0x100) by (bit_vector);
}

} // verus!
