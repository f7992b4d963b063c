use vstd::prelude::*;

verus! {

/// The four bytes of `n`, most significant first (`u32::to_be_bytes`).
pub open spec fn be_bytes(n: u32) -> Seq<u8> {
    seq![(n >> 24u32) as u8, (n >> 16u32) as u8, (n >> 8u32) as u8, n as u8]
}

/// The number that four bytes stand for, most significant first
/// (`u32::from_be_bytes`).
pub open spec fn be_value(b0: u8, b1: u8, b2: u8, b3: u8) -> u32 {
    ((b0 as u32) << 24u32) | ((b1 as u32) << 16u32) | ((b2 as u32) << 8u32) | (b3 as u32)
}

/// The length that a frame header announces.
pub open spec fn header_value(header: Seq<u8>) -> u32 {
    be_value(header[0], header[1], header[2], header[3])
}

/// A frame: the payload's length as a big-endian `u32`, then the payload.
/// A length that does not fit in 32 bits is written modulo 2^32, as the
/// `as u32` cast of the sender does.
pub open spec fn spec_encode_frame(payload: Seq<u8>) -> Seq<u8> {
    be_bytes((payload.len() % 0x1_0000_0000) as u32) + payload
}

/// The payload that a buffer starting with a frame holds: the announced
/// number of bytes after the 4-byte header, or nothing when the buffer is
/// shorter than that. Bytes after the payload are not part of it.
pub open spec fn spec_decode_frame(bytes: Seq<u8>) -> Option<Seq<u8>> {
    if bytes.len() < 4 {
        None
    } else {
        let n = header_value(bytes) as int;
        if bytes.len() - 4 < n {
            None
        } else {
            Some(bytes.subrange(4, 4 + n))
        }
    }
}

/// The payload length that a received 4-byte header announces.
pub fn frame_length(header: [u8; 4]) -> (n: u32)
    ensures
        n == header_value(header@),
{
    let b0 = header[0] as u32;
    let b1 = header[1] as u32;
    let b2 = header[2] as u32;
    let b3 = header[3] as u32;
    (b0 << 24u32) | (b1 << 16u32) | (b2 << 8u32) | b3
}

/// Frames a payload for sending.
pub fn encode_frame(payload: &Vec<u8>) -> (frame: Vec<u8>)
    ensures
        frame@ == spec_encode_frame(payload@),
{
    let n: u32 = (payload.len() as u64 % 0x1_0000_0000u64) as u32;
    let mut frame: Vec<u8> = Vec::new();
    frame.push((n >> 24u32) as u8);
    frame.push((n >> 16u32) as u8);
    frame.push((n >> 8u32) as u8);
    frame.push(n as u8);
    let mut i: usize = 0;
    while i < payload.len()
        invariant
            0 <= i <= payload@.len(),
            frame@ == be_bytes(n) + payload@.subrange(0, i as int),
        decreases payload@.len() - i,
    {
        frame.push(payload[i]);
        assert(frame@ =~= be_bytes(n) + payload@.subrange(0, i + 1));
        i = i + 1;
    }
    assert(payload@.subrange(0, payload@.len() as int) =~= payload@);
    frame
}

/// Takes the payload out of a buffer that starts with a frame.
pub fn decode_frame(bytes: &[u8]) -> (r: Option<Vec<u8>>)
    ensures
        match r {
            Some(p) => spec_decode_frame(bytes@) == Some(p@),
            None => spec_decode_frame(bytes@) is None,
        },
{
    if bytes.len() < 4 {
        return None;
    }
    let header: [u8; 4] = [bytes[0], bytes[1], bytes[2], bytes[3]];
    let n = frame_length(header);
    assert(header@ =~= bytes@.subrange(0, 4));
    if ((bytes.len() - 4) as u64) < (n as u64) {
        return None;
    }
    let end: usize = 4 + n as usize;
    let mut payload: Vec<u8> = Vec::new();
    let mut i: usize = 4;
    while i < end
        invariant
            4 <= i <= end,
            end <= bytes@.len(),
            end == 4 + header_value(bytes@),
            payload@ == bytes@.subrange(4, i as int),
        decreases end - i,
    {
        payload.push(bytes[i]);
        assert(payload@ =~= bytes@.subrange(4, i + 1));
        i = i + 1;
    }
    Some(payload)
}

/// Reading back a written header gives the length that was written.
pub proof fn lemma_header_roundtrip(n: u32)
    ensures
        header_value(be_bytes(n)) == n,
{
    assert(be_value((n >> 24u32) as u8, (n >> 16u32) as u8, (n >> 8u32) as u8, n as u8) == n)
        by (bit_vector);
}

/// A receiver takes out of a frame exactly the payload that was framed, for
/// every payload whose length fits the 32-bit header; bytes that follow the
/// frame do not change what is read.
pub proof fn lemma_frame_roundtrip(payload: Seq<u8>, rest: Seq<u8>)
    requires
        payload.len() < 0x1_0000_0000,
    ensures
        spec_decode_frame(spec_encode_frame(payload)) == Some(payload),
        spec_decode_frame(spec_encode_frame(payload) + rest) == Some(payload),
{
    let n = (payload.len() % 0x1_0000_0000) as u32;
    lemma_header_roundtrip(n);
    let f = spec_encode_frame(payload);
    assert(f.subrange(0, 4) =~= be_bytes(n));
    assert(f.subrange(4, 4 + payload.len() as int) =~= payload);
    let g = f + rest;
    assert(g.subrange(4, 4 + payload.len() as int) =~= payload);
    assert(header_value(g) == header_value(f));
    assert(header_value(f) == header_value(be_bytes(n)));
}

} // verus!
