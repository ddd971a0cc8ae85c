use lockstep::codec::{
    decode_c2s, decode_c2s_framed, decode_frame_len, decode_s2c, decode_s2c_framed, encode_c2s,
    encode_c2s_frame, encode_s2c, encode_s2c_frame, DecodeError,
};
use lockstep::protocol::{AssignStart, InputMsg, TickInputs, C2S, S2C};
use lockstep::sim::InputPair;

#[test]
fn round_trip_assign_start() {
    let m = S2C::AssignStart(AssignStart {
        player_id: 1,
        start_after_ms: 800,
    });
    let bytes = encode_s2c(&m);
    assert_eq!(decode_s2c(&bytes), Ok(m));
}

#[test]
fn round_trip_assign_start_extremes() {
    for (pid, ms) in [(0u8, 0u32), (255, u32::MAX), (7, 1)] {
        let m = S2C::AssignStart(AssignStart {
            player_id: pid,
            start_after_ms: ms,
        });
        assert_eq!(decode_s2c(&encode_s2c(&m)), Ok(m));
    }
}

#[test]
fn round_trip_tick_inputs_preserves_reserved_bits() {
    let m = S2C::TickInputs(TickInputs {
        tick: 123_456,
        inputs: InputPair { p0: 0xFF, p1: 0xA8 },
    });
    let bytes = encode_s2c(&m);
    assert_eq!(decode_s2c(&bytes), Ok(m));
}

#[test]
fn round_trip_input_msg() {
    for (tick, bits) in [(0u32, 0u8), (u32::MAX, 0xFF), (5, 7)] {
        let m = C2S::Input(InputMsg { tick, bits });
        assert_eq!(decode_c2s(&encode_c2s(&m)), Ok(m));
    }
}

#[test]
fn canonical_frame_layout_c2s() {
    let m = C2S::Input(InputMsg { tick: 1, bits: 7 });
    let frame = encode_c2s_frame(&m);
    assert_eq!(frame, vec![9, 0, 0, 0, 0, 0, 0, 0, 1, 0, 0, 0, 7]);
}

#[test]
fn canonical_frame_layout_s2c_tick_inputs() {
    let m = S2C::TickInputs(TickInputs {
        tick: 2,
        inputs: InputPair { p0: 3, p1: 4 },
    });
    let frame = encode_s2c_frame(&m);
    assert_eq!(frame, vec![10, 0, 0, 0, 1, 0, 0, 0, 2, 0, 0, 0, 3, 4]);
}

#[test]
fn canonical_frame_layout_s2c_assign_start() {
    let m = S2C::AssignStart(AssignStart {
        player_id: 1,
        start_after_ms: 800,
    });
    let frame = encode_s2c_frame(&m);
    assert_eq!(frame, vec![9, 0, 0, 0, 0, 0, 0, 0, 1, 32, 3, 0, 0]);
}

#[test]
fn unknown_tag_rejected() {
    assert_eq!(decode_s2c(&[5, 0, 0, 0]), Err(DecodeError::UnknownTag));
    assert_eq!(decode_s2c(&[2, 0, 0, 0, 1, 2, 3, 4, 5]), Err(DecodeError::UnknownTag));
    assert_eq!(decode_c2s(&[1, 0, 0, 0, 1, 2, 3, 4, 5]), Err(DecodeError::UnknownTag));
}

#[test]
fn malformed_payload_rejected() {
    assert_eq!(decode_s2c(&[]), Err(DecodeError::MalformedFrame));
    assert_eq!(decode_s2c(&[0, 0, 0]), Err(DecodeError::MalformedFrame));
    // right tag, wrong length
    assert_eq!(decode_s2c(&[0, 0, 0, 0, 1, 2]), Err(DecodeError::MalformedFrame));
    // trailing junk after a complete message
    assert_eq!(
        decode_s2c(&[0, 0, 0, 0, 1, 32, 3, 0, 0, 99]),
        Err(DecodeError::MalformedFrame)
    );
    assert_eq!(decode_c2s(&[0, 0, 0, 0, 1]), Err(DecodeError::MalformedFrame));
}

#[test]
fn truncated_stream_rejected() {
    // shorter than the length prefix
    assert_eq!(decode_s2c_framed(&[9, 0, 0]), Err(DecodeError::Truncated));
    // prefix promises 9 payload bytes, fewer arrive
    assert_eq!(
        decode_s2c_framed(&[9, 0, 0, 0, 0, 0, 0, 0, 1]),
        Err(DecodeError::Truncated)
    );
}

#[test]
fn framed_decode_consumes_exactly_one_frame() {
    let m = S2C::TickInputs(TickInputs {
        tick: 9,
        inputs: InputPair { p0: 1, p1: 2 },
    });
    let mut stream = encode_s2c_frame(&m);
    let frame_len = stream.len();
    stream.extend_from_slice(&[0xDE, 0xAD]);
    assert_eq!(decode_s2c_framed(&stream), Ok((m, frame_len)));
}

#[test]
fn framed_decode_both_directions() {
    let m = C2S::Input(InputMsg { tick: 77, bits: 5 });
    let mut stream = encode_c2s_frame(&m);
    let frame_len = stream.len();
    stream.push(0x42);
    assert_eq!(decode_c2s_framed(&stream), Ok((m, frame_len)));
    assert_eq!(decode_c2s_framed(&stream[..3]), Err(DecodeError::Truncated));
    assert_eq!(
        decode_c2s_framed(&stream[..frame_len - 1]),
        Err(DecodeError::Truncated)
    );
}

#[test]
fn frame_len_prefix() {
    assert_eq!(decode_frame_len(&[9, 0, 0, 0]), Some(9));
    assert_eq!(decode_frame_len(&[0, 1, 0, 0]), Some(256));
    assert_eq!(decode_frame_len(&[1, 2, 3]), None);
}
