//! Length-delimited framing: every frame is a little-endian 32-bit
//! payload length followed by exactly that many payload bytes.  Control
//! connections cap the payload at 16 MiB, the relay handshake at
//! 32 MiB; a frame above the cap is a fatal connection error, while a
//! merely incomplete frame asks for more data.

use vstd::prelude::*;

verus! {

/// Maximum payload length on a control connection: 16 MiB.
pub const MAX_CONTROL_FRAME_LEN: u32 = 16 * 1024 * 1024;

/// Maximum payload length on a relay handshake connection: 32 MiB.
pub const MAX_RELAY_FRAME_LEN: u32 = 32 * 1024 * 1024;

/// Little-endian bytes of a 32-bit value.
pub open spec fn spec_u32_le(n: u32) -> Seq<u8> {
    seq![
        (n % 256) as u8,
        ((n / 256) % 256) as u8,
        ((n / 65536) % 256) as u8,
        ((n / 16777216) % 256) as u8,
    ]
}

/// A whole frame: the length prefix followed by the payload.
pub open spec fn spec_frame(payload: Seq<u8>) -> Seq<u8> {
    spec_u32_le(payload.len() as u32) + payload
}

/// Reading four little-endian bytes recovers the value they encode.
pub proof fn lemma_u32_le_roundtrip(n: u32)
    ensures
        spec_u32_le(n).len() == 4,
        spec_u32_le(n)[0] + spec_u32_le(n)[1] * 0x100 + spec_u32_le(n)[2] * 0x10000 + spec_u32_le(
            n,
        )[3] * 0x1000000 == n,
{
    let b0 = (n % 256) as int;
    let b1 = ((n / 256) % 256) as int;
    let b2 = ((n / 65536) % 256) as int;
    let b3 = ((n / 16777216) % 256) as int;
    assert(b0 + b1 * 0x100 + b2 * 0x10000 + b3 * 0x1000000 == n) by (nonlinear_arith)
        requires
            b0 == (n as int) % 256,
            b1 == ((n as int) / 256) % 256,
            b2 == ((n as int) / 65536) % 256,
            b3 == ((n as int) / 16777216) % 256,
            0 <= (n as int) < 0x100000000,
    ;
}

/// Outcome of one decoding step over a receive buffer.
#[derive(PartialEq, Eq, Debug)]
pub enum FrameDecode {
    /// The buffer does not yet hold a whole frame.
    NeedMoreData,
    /// A whole frame: its payload, and how many buffer bytes it spans.
    Frame { payload: Vec<u8>, consumed: usize },
    /// The length prefix exceeds the cap: a fatal connection error.
    Oversized,
}

/// Encodes one frame.  Fails exactly when the payload exceeds the cap.
pub fn encode_frame(payload: &Vec<u8>, max_len: u32) -> (r: Result<Vec<u8>, ()>)
    ensures
        payload@.len() <= max_len ==> (r matches Ok(f) && f@ == spec_frame(payload@)),
        payload@.len() > max_len ==> r is Err,
{
    if payload.len() > max_len as usize {
        return Err(());
    }
    let n = payload.len() as u32;
    let mut out: Vec<u8> = Vec::new();
    out.push((n % 256) as u8);
    out.push(((n / 256) % 256) as u8);
    out.push(((n / 65536) % 256) as u8);
    out.push(((n / 16777216) % 256) as u8);
    let mut i: usize = 0;
    while i < payload.len()
        invariant
            0 <= i <= payload@.len(),
            out@ == spec_u32_le(n) + payload@.subrange(0, i as int),
            n == payload@.len(),
        decreases payload@.len() - i,
    {
        out.push(payload[i]);
        proof {
            assert(out@ =~= spec_u32_le(n) + payload@.subrange(0, i + 1));
        }
        i += 1;
    }
    proof {
        assert(out@ =~= spec_frame(payload@));
    }
    Ok(out)
}

/// Decodes at most one frame from the front of a receive buffer.
///
/// A length prefix above the cap is `Oversized` even before the payload
/// has arrived; a frame at exactly the cap is accepted.
pub fn decode_frame(buf: &Vec<u8>, max_len: u32) -> (r: FrameDecode)
    requires
        max_len as int + 4 <= usize::MAX,
    ensures
        buf@.len() < 4 ==> r == FrameDecode::NeedMoreData,
        buf@.len() >= 4 ==> {
            let n = spec_frame_len(buf@);
            if n > max_len {
                r == FrameDecode::Oversized
            } else if buf@.len() < 4 + n {
                r == FrameDecode::NeedMoreData
            } else {
                match r {
                    FrameDecode::Frame { payload, consumed } => payload@ == buf@.subrange(
                        4,
                        4 + n as int,
                    ) && consumed == 4 + n,
                    _ => false,
                }
            }
        },
{
    if buf.len() < 4 {
        return FrameDecode::NeedMoreData;
    }
    let n: u32 = buf[0] as u32 + buf[1] as u32 * 0x100 + buf[2] as u32 * 0x10000 + buf[3] as u32
        * 0x1000000;
    proof {
        lemma_frame_len_value(buf@);
    }
    if n > max_len {
        return FrameDecode::Oversized;
    }
    if buf.len() < 4 + n as usize {
        return FrameDecode::NeedMoreData;
    }
    let mut payload: Vec<u8> = Vec::new();
    let mut i: usize = 0;
    while i < n as usize
        invariant
            0 <= i <= n,
            n as int + 4 <= usize::MAX,
            buf@.len() >= 4 + n,
            payload@ == buf@.subrange(4, 4 + i as int),
        decreases n - i,
    {
        payload.push(buf[4 + i]);
        proof {
            assert(payload@ =~= buf@.subrange(4, 4 + (i + 1)));
        }
        i += 1;
    }
    FrameDecode::Frame { payload, consumed: 4 + n as usize }
}

/// The payload length announced by a buffer's first four bytes.
pub open spec fn spec_frame_len(buf: Seq<u8>) -> u32 {
    (buf[0] + buf[1] * 0x100 + buf[2] * 0x10000 + buf[3] * 0x1000000) as u32
}

/// The announced length of an encoded frame is the payload's length.
pub proof fn lemma_frame_len_of_spec_frame(payload: Seq<u8>)
    requires
        payload.len() <= u32::MAX,
    ensures
        spec_frame_len(spec_frame(payload)) == payload.len(),
{
    lemma_u32_le_roundtrip(payload.len() as u32);
}

proof fn lemma_frame_len_value(buf: Seq<u8>)
    requires
        buf.len() >= 4,
    ensures
        buf[0] + buf[1] * 0x100 + buf[2] * 0x10000 + buf[3] * 0x1000000 == spec_frame_len(buf),
        spec_frame_len(buf) <= u32::MAX,
{
    assert(buf[0] + buf[1] * 0x100 + buf[2] * 0x10000 + buf[3] * 0x1000000 <= 0xffffffff)
        by (nonlinear_arith)
        requires
            0 <= buf[0] < 256 && 0 <= buf[1] < 256 && 0 <= buf[2] < 256 && 0 <= buf[3] < 256,
    ;
}

/// Decoding the encoding of a payload that fits the cap yields the
/// payload back and consumes the whole frame.
pub proof fn lemma_frame_roundtrip(payload: Seq<u8>, max_len: u32)
    requires
        payload.len() <= max_len,
    ensures
        spec_frame_len(spec_frame(payload)) == payload.len(),
        spec_frame(payload).subrange(4, 4 + payload.len() as int) == payload,
{
    lemma_frame_len_of_spec_frame(payload);
    assert(spec_frame(payload).subrange(4, 4 + payload.len() as int) =~= payload);
}

} // verus!
