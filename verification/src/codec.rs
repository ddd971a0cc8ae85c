//! Canonical binary wire codec.
//!
//! Every message travels as a length-prefixed frame: a 4-byte little-endian
//! payload length, then the payload. A payload is a 4-byte little-endian
//! variant tag followed by the variant's fields in declaration order, each
//! integer little-endian. The encoding is canonical: equal messages produce
//! byte-identical frames, and decoding is its exact inverse.

use vstd::bytes::{
    lemma_auto_spec_u32_to_from_le_bytes, spec_u32_from_le_bytes, spec_u32_to_le_bytes,
    u32_from_le_bytes, u32_to_le_bytes,
};
use vstd::prelude::*;
use vstd::slice::slice_subrange;

use crate::protocol::{AssignStart, InputMsg, TickInputs, C2S, S2C};
use crate::sim::InputPair;

verus! {

/// Why a received buffer was rejected. Any of these ends the connection.
#[derive(Clone, Copy, Debug, PartialEq, Eq, Structural)]
pub enum DecodeError {
    /// The payload's length or field contents do not match its tag.
    MalformedFrame,
    /// The payload's tag names no known message variant.
    UnknownTag,
    /// The buffer ended before the frame was complete.
    Truncated,
}

/// Variant tag of `S2C::AssignStart`.
pub const TAG_S2C_ASSIGN_START: u32 = 0;

/// Variant tag of `S2C::TickInputs`.
pub const TAG_S2C_TICK_INPUTS: u32 = 1;

/// Variant tag of `C2S::Input`.
pub const TAG_C2S_INPUT: u32 = 0;

/// The canonical payload encoding of a server-to-client message.
pub open spec fn spec_encode_s2c(m: S2C) -> Seq<u8> {
    match m {
        S2C::AssignStart(a) => spec_u32_to_le_bytes(TAG_S2C_ASSIGN_START) + seq![a.player_id]
            + spec_u32_to_le_bytes(a.start_after_ms),
        S2C::TickInputs(t) => spec_u32_to_le_bytes(TAG_S2C_TICK_INPUTS) + spec_u32_to_le_bytes(
            t.tick,
        ) + seq![t.inputs.p0, t.inputs.p1],
    }
}

/// The canonical payload encoding of a client-to-server message.
pub open spec fn spec_encode_c2s(m: C2S) -> Seq<u8> {
    match m {
        C2S::Input(i) => spec_u32_to_le_bytes(TAG_C2S_INPUT) + spec_u32_to_le_bytes(i.tick)
            + seq![i.bits],
    }
}

/// A payload wrapped in its length-prefixed frame.
pub open spec fn spec_frame(payload: Seq<u8>) -> Seq<u8>
    recommends
        payload.len() <= u32::MAX,
{
    spec_u32_to_le_bytes(payload.len() as u32) + payload
}

/// What decoding a server-to-client payload yields.
pub open spec fn spec_decode_s2c(b: Seq<u8>) -> Result<S2C, DecodeError> {
    if b.len() < 4 {
        Err(DecodeError::MalformedFrame)
    } else {
        let tag = spec_u32_from_le_bytes(b.subrange(0, 4));
        if tag == TAG_S2C_ASSIGN_START {
            if b.len() == 9 {
                Ok(
                    S2C::AssignStart(
                        AssignStart {
                            player_id: b[4],
                            start_after_ms: spec_u32_from_le_bytes(b.subrange(5, 9)),
                        },
                    ),
                )
            } else {
                Err(DecodeError::MalformedFrame)
            }
        } else if tag == TAG_S2C_TICK_INPUTS {
            if b.len() == 10 {
                Ok(
                    S2C::TickInputs(
                        TickInputs {
                            tick: spec_u32_from_le_bytes(b.subrange(4, 8)),
                            inputs: InputPair { p0: b[8], p1: b[9] },
                        },
                    ),
                )
            } else {
                Err(DecodeError::MalformedFrame)
            }
        } else {
            Err(DecodeError::UnknownTag)
        }
    }
}

/// What decoding a client-to-server payload yields.
pub open spec fn spec_decode_c2s(b: Seq<u8>) -> Result<C2S, DecodeError> {
    if b.len() < 4 {
        Err(DecodeError::MalformedFrame)
    } else {
        let tag = spec_u32_from_le_bytes(b.subrange(0, 4));
        if tag == TAG_C2S_INPUT {
            if b.len() == 9 {
                Ok(
                    C2S::Input(
                        InputMsg { tick: spec_u32_from_le_bytes(b.subrange(4, 8)), bits: b[8] },
                    ),
                )
            } else {
                Err(DecodeError::MalformedFrame)
            }
        } else {
            Err(DecodeError::UnknownTag)
        }
    }
}

/// Encodes a server-to-client message's payload.
pub fn encode_s2c(m: &S2C) -> (r: Vec<u8>)
    ensures
        r@ == spec_encode_s2c(*m),
{
    let mut out: Vec<u8> = Vec::new();
    match m {
        S2C::AssignStart(a) => {
            let mut tag = u32_to_le_bytes(TAG_S2C_ASSIGN_START);
            out.append(&mut tag);
            out.push(a.player_id);
            let mut ms = u32_to_le_bytes(a.start_after_ms);
            out.append(&mut ms);
        },
        S2C::TickInputs(t) => {
            let mut tag = u32_to_le_bytes(TAG_S2C_TICK_INPUTS);
            out.append(&mut tag);
            let mut tick = u32_to_le_bytes(t.tick);
            out.append(&mut tick);
            out.push(t.inputs.p0);
            out.push(t.inputs.p1);
        },
    }
    proof {
        assert(out@ =~= spec_encode_s2c(*m));
    }
    out
}

/// Encodes a client-to-server message's payload.
pub fn encode_c2s(m: &C2S) -> (r: Vec<u8>)
    ensures
        r@ == spec_encode_c2s(*m),
{
    let mut out: Vec<u8> = Vec::new();
    match m {
        C2S::Input(i) => {
            let mut tag = u32_to_le_bytes(TAG_C2S_INPUT);
            out.append(&mut tag);
            let mut tick = u32_to_le_bytes(i.tick);
            out.append(&mut tick);
            out.push(i.bits);
        },
    }
    proof {
        assert(out@ =~= spec_encode_c2s(*m));
    }
    out
}

/// Wraps a payload in its length-prefixed frame.
pub fn frame_payload(payload: &Vec<u8>) -> (r: Vec<u8>)
    requires
        payload@.len() <= u32::MAX,
    ensures
        r@ == spec_frame(payload@),
{
    let mut out = u32_to_le_bytes(payload.len() as u32);
    let mut body = payload.clone();
    out.append(&mut body);
    proof {
        assert(payload@.len() as u32 as int == payload@.len() as int);
        assert(out@ =~= spec_frame(payload@));
    }
    out
}

/// The payload of a server-to-client message is 9 or 10 bytes.
pub proof fn lemma_s2c_payload_len(m: S2C)
    ensures
        spec_encode_s2c(m).len() == if m is AssignStart {
            9int
        } else {
            10int
        },
{
    lemma_auto_spec_u32_to_from_le_bytes();
}

/// The payload of a client-to-server message is 9 bytes.
pub proof fn lemma_c2s_payload_len(m: C2S)
    ensures
        spec_encode_c2s(m).len() == 9,
{
    lemma_auto_spec_u32_to_from_le_bytes();
}

/// Encodes a server-to-client message as a complete frame.
pub fn encode_s2c_frame(m: &S2C) -> (r: Vec<u8>)
    ensures
        r@ == spec_frame(spec_encode_s2c(*m)),
{
    let payload = encode_s2c(m);
    proof {
        lemma_s2c_payload_len(*m);
    }
    frame_payload(&payload)
}

/// Encodes a client-to-server message as a complete frame.
pub fn encode_c2s_frame(m: &C2S) -> (r: Vec<u8>)
    ensures
        r@ == spec_frame(spec_encode_c2s(*m)),
{
    let payload = encode_c2s(m);
    proof {
        lemma_c2s_payload_len(*m);
    }
    frame_payload(&payload)
}

/// Reads a frame's 4-byte length prefix. Returns `None` unless given
/// exactly the prefix.
pub fn decode_frame_len(b: &[u8]) -> (r: Option<u32>)
    ensures
        b@.len() == 4 ==> r == Some(spec_u32_from_le_bytes(b@)),
        b@.len() != 4 ==> r is None,
{
    if b.len() == 4 {
        Some(u32_from_le_bytes(b))
    } else {
        None
    }
}

/// Decodes a server-to-client payload.
pub fn decode_s2c(b: &[u8]) -> (r: Result<S2C, DecodeError>)
    ensures
        r == spec_decode_s2c(b@),
{
    if b.len() < 4 {
        return Err(DecodeError::MalformedFrame);
    }
    let tag = u32_from_le_bytes(slice_subrange(b, 0, 4));
    if tag == TAG_S2C_ASSIGN_START {
        if b.len() == 9 {
            let player_id = b[4];
            let start_after_ms = u32_from_le_bytes(slice_subrange(b, 5, 9));
            Ok(S2C::AssignStart(AssignStart { player_id, start_after_ms }))
        } else {
            Err(DecodeError::MalformedFrame)
        }
    } else if tag == TAG_S2C_TICK_INPUTS {
        if b.len() == 10 {
            let tick = u32_from_le_bytes(slice_subrange(b, 4, 8));
            let inputs = InputPair { p0: b[8], p1: b[9] };
            Ok(S2C::TickInputs(TickInputs { tick, inputs }))
        } else {
            Err(DecodeError::MalformedFrame)
        }
    } else {
        Err(DecodeError::UnknownTag)
    }
}

/// Decodes a client-to-server payload.
pub fn decode_c2s(b: &[u8]) -> (r: Result<C2S, DecodeError>)
    ensures
        r == spec_decode_c2s(b@),
{
    if b.len() < 4 {
        return Err(DecodeError::MalformedFrame);
    }
    let tag = u32_from_le_bytes(slice_subrange(b, 0, 4));
    if tag == TAG_C2S_INPUT {
        if b.len() == 9 {
            let tick = u32_from_le_bytes(slice_subrange(b, 4, 8));
            let bits = b[8];
            Ok(C2S::Input(InputMsg { tick, bits }))
        } else {
            Err(DecodeError::MalformedFrame)
        }
    } else {
        Err(DecodeError::UnknownTag)
    }
}

/// What decoding one server-to-client frame from the front of a stream
/// buffer yields: the message and the number of bytes consumed.
pub open spec fn spec_decode_s2c_framed(b: Seq<u8>) -> Result<(S2C, usize), DecodeError> {
    if b.len() < 4 {
        Err(DecodeError::Truncated)
    } else {
        let len = spec_u32_from_le_bytes(b.subrange(0, 4)) as int;
        if b.len() - 4 < len {
            Err(DecodeError::Truncated)
        } else {
            match spec_decode_s2c(b.subrange(4, 4 + len)) {
                Ok(m) => Ok((m, (4 + len) as usize)),
                Err(e) => Err(e),
            }
        }
    }
}

/// Decodes one server-to-client frame from the front of a stream buffer.
/// Bytes after the frame are left for the next call.
pub fn decode_s2c_framed(b: &[u8]) -> (r: Result<(S2C, usize), DecodeError>)
    ensures
        r == spec_decode_s2c_framed(b@),
{
    if b.len() < 4 {
        return Err(DecodeError::Truncated);
    }
    let len32 = u32_from_le_bytes(slice_subrange(b, 0, 4));
    let len = len32 as usize;
    if b.len() - 4 < len {
        return Err(DecodeError::Truncated);
    }
    let payload = slice_subrange(b, 4, 4 + len);
    match decode_s2c(payload) {
        Ok(m) => Ok((m, 4 + len)),
        Err(e) => Err(e),
    }
}

/// What decoding one client-to-server frame from the front of a stream
/// buffer yields: the message and the number of bytes consumed.
pub open spec fn spec_decode_c2s_framed(b: Seq<u8>) -> Result<(C2S, usize), DecodeError> {
    if b.len() < 4 {
        Err(DecodeError::Truncated)
    } else {
        let len = spec_u32_from_le_bytes(b.subrange(0, 4)) as int;
        if b.len() - 4 < len {
            Err(DecodeError::Truncated)
        } else {
            match spec_decode_c2s(b.subrange(4, 4 + len)) {
                Ok(m) => Ok((m, (4 + len) as usize)),
                Err(e) => Err(e),
            }
        }
    }
}

/// Decodes one client-to-server frame from the front of a stream buffer.
/// Bytes after the frame are left for the next call.
pub fn decode_c2s_framed(b: &[u8]) -> (r: Result<(C2S, usize), DecodeError>)
    ensures
        r == spec_decode_c2s_framed(b@),
{
    if b.len() < 4 {
        return Err(DecodeError::Truncated);
    }
    let len32 = u32_from_le_bytes(slice_subrange(b, 0, 4));
    let len = len32 as usize;
    if b.len() - 4 < len {
        return Err(DecodeError::Truncated);
    }
    let payload = slice_subrange(b, 4, 4 + len);
    match decode_c2s(payload) {
        Ok(m) => Ok((m, 4 + len)),
        Err(e) => Err(e),
    }
}

/// Codec round trip, server-to-client direction: decoding an encoded
/// message yields the message back, for every variant and every field
/// value.
pub proof fn lemma_s2c_round_trip(m: S2C)
    ensures
        spec_decode_s2c(spec_encode_s2c(m)) == Ok::<S2C, DecodeError>(m),
{
    lemma_auto_spec_u32_to_from_le_bytes();
    let e = spec_encode_s2c(m);
    match m {
        S2C::AssignStart(a) => {
            assert(e.subrange(0, 4) =~= spec_u32_to_le_bytes(TAG_S2C_ASSIGN_START));
            assert(e.subrange(5, 9) =~= spec_u32_to_le_bytes(a.start_after_ms));
            assert(e[4] == a.player_id);
        },
        S2C::TickInputs(t) => {
            assert(e.subrange(0, 4) =~= spec_u32_to_le_bytes(TAG_S2C_TICK_INPUTS));
            assert(e.subrange(4, 8) =~= spec_u32_to_le_bytes(t.tick));
            assert(e[8] == t.inputs.p0 && e[9] == t.inputs.p1);
        },
    }
}

/// Codec round trip, client-to-server direction.
pub proof fn lemma_c2s_round_trip(m: C2S)
    ensures
        spec_decode_c2s(spec_encode_c2s(m)) == Ok::<C2S, DecodeError>(m),
{
    lemma_auto_spec_u32_to_from_le_bytes();
    let e = spec_encode_c2s(m);
    match m {
        C2S::Input(i) => {
            assert(e.subrange(0, 4) =~= spec_u32_to_le_bytes(TAG_C2S_INPUT));
            assert(e.subrange(4, 8) =~= spec_u32_to_le_bytes(i.tick));
            assert(e[8] == i.bits);
        },
    }
}

/// Frame round trip on a stream: a well-formed frame at the front of any
/// buffer decodes to its message, consuming exactly the frame, whatever
/// bytes follow it.
pub proof fn lemma_s2c_frame_round_trip(m: S2C, rest: Seq<u8>)
    ensures
        ({
            let f = spec_frame(spec_encode_s2c(m));
            spec_decode_s2c_framed(f + rest) == Ok::<(S2C, usize), DecodeError>(
                (m, f.len() as usize),
            )
        }),
{
    lemma_auto_spec_u32_to_from_le_bytes();
    lemma_s2c_payload_len(m);
    lemma_s2c_round_trip(m);
    let p = spec_encode_s2c(m);
    let f = spec_frame(p);
    let b = f + rest;
    assert(b.subrange(0, 4) =~= spec_u32_to_le_bytes(p.len() as u32));
    assert(spec_u32_from_le_bytes(b.subrange(0, 4)) == p.len());
    assert(b.subrange(4, 4 + p.len() as int) =~= p);
}

/// Frame round trip on a stream, client-to-server direction.
pub proof fn lemma_c2s_frame_round_trip(m: C2S, rest: Seq<u8>)
    ensures
        ({
            let f = spec_frame(spec_encode_c2s(m));
            spec_decode_c2s_framed(f + rest) == Ok::<(C2S, usize), DecodeError>(
                (m, f.len() as usize),
            )
        }),
{
    lemma_auto_spec_u32_to_from_le_bytes();
    lemma_c2s_payload_len(m);
    lemma_c2s_round_trip(m);
    let p = spec_encode_c2s(m);
    let f = spec_frame(p);
    let b = f + rest;
    assert(b.subrange(0, 4) =~= spec_u32_to_le_bytes(p.len() as u32));
    assert(spec_u32_from_le_bytes(b.subrange(0, 4)) == p.len());
    assert(b.subrange(4, 4 + p.len() as int) =~= p);
}

/// Canonicity: two messages encode to the same bytes only if they are the
/// same message.
pub proof fn lemma_s2c_encoding_injective(m1: S2C, m2: S2C)
    requires
        spec_encode_s2c(m1) == spec_encode_s2c(m2),
    ensures
        m1 == m2,
{
    lemma_s2c_round_trip(m1);
    lemma_s2c_round_trip(m2);
}

} // verus!
