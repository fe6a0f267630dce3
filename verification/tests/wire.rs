use xiaoai_agent::asr_probe::{decode_speech_upward, parse_fields, INTERACT_NONCONTINUOUS};
use xiaoai_agent::speech::{
    ACTIVATE_WAKEUP, DOWN_STREAM_PREPARE_RESPONSE, SPEECH_TYPE_DOWNWARD, SPEECH_TYPE_UPWARD,
    STREAM_ASR, UP_REGISTER, UP_STREAM_PREPARE, UP_STREAM_TRANSMITTING,
};
use xiaoai_agent::wire::{
    bool_field, bytes_field, decode_varint, encode_varint, find_bytes, find_string, find_varint,
    message, string_field, varint_field, Field, WireError,
};

fn speech_upward(upward: Vec<u8>) -> Vec<u8> {
    message(vec![
        varint_field(1, SPEECH_TYPE_UPWARD),
        bytes_field(2, &upward),
    ])
}

#[test]
fn decodes_native_register_request() {
    let register = message(vec![string_field(1, "xiaomi"), string_field(2, "opus32")]);
    let upward = message(vec![
        varint_field(1, UP_REGISTER),
        bytes_field(2, &register),
    ]);
    let speech = speech_upward(upward);

    let event = decode_speech_upward(&speech).unwrap().unwrap();
    assert_eq!(event.up_type, UP_REGISTER);
    assert_eq!(event.speech_vendor.as_deref(), Some("xiaomi"));
    assert_eq!(event.speech_codec.as_deref(), Some("opus32"));
}

#[test]
fn decodes_wakeup_prepare_request() {
    let prepare = message(vec![
        varint_field(1, ACTIVATE_WAKEUP),
        varint_field(2, INTERACT_NONCONTINUOUS),
    ]);
    let upward = message(vec![
        varint_field(1, UP_STREAM_PREPARE),
        bytes_field(3, &prepare),
    ]);

    let event = decode_speech_upward(&speech_upward(upward))
        .unwrap()
        .unwrap();
    assert_eq!(event.activate_mode, Some(ACTIVATE_WAKEUP));
    assert_eq!(event.interact_mode, Some(INTERACT_NONCONTINUOUS));
}

#[test]
fn decodes_asr_audio_packet() {
    let transmitting = message(vec![
        varint_field(1, STREAM_ASR),
        bytes_field(2, &[1, 2, 3, 4]),
    ]);
    let upward = message(vec![
        varint_field(1, UP_STREAM_TRANSMITTING),
        bytes_field(4, &transmitting),
    ]);

    let event = decode_speech_upward(&speech_upward(upward))
        .unwrap()
        .unwrap();
    assert_eq!(event.transmit_type, Some(STREAM_ASR));
    assert_eq!(event.data, [1, 2, 3, 4]);
}

#[test]
fn encodes_downward_prepare_response() {
    let response = message(vec![bool_field(1, true)]);
    let downward = message(vec![
        varint_field(1, DOWN_STREAM_PREPARE_RESPONSE),
        bytes_field(3, &response),
    ]);
    let speech = message(vec![
        varint_field(1, SPEECH_TYPE_DOWNWARD),
        bytes_field(3, &downward),
    ]);

    let outer = parse_fields(&speech).unwrap();
    assert_eq!(find_varint(&outer, 1), Some(SPEECH_TYPE_DOWNWARD));
    let down = parse_fields(find_bytes(&outer, 3).unwrap()).unwrap();
    assert_eq!(find_varint(&down, 1), Some(DOWN_STREAM_PREPARE_RESPONSE));
    let body = parse_fields(find_bytes(&down, 3).unwrap()).unwrap();
    assert_eq!(find_varint(&body, 1), Some(1));
}

#[test]
fn varint_roundtrip() {
    for value in [0, 1, 127, 128, 16_384, u32::MAX as u64] {
        let mut encoded = Vec::new();
        encode_varint(value, &mut encoded);
        let mut slice = encoded.as_slice();
        assert_eq!(decode_varint(&mut slice).unwrap(), value);
        assert!(slice.is_empty());
    }
}

#[test]
fn varints_have_their_known_bytes() {
    let mut out = vec![9];
    encode_varint(300, &mut out);
    assert_eq!(out, [9, 0xac, 0x02]);
    let mut out = Vec::new();
    encode_varint(u64::MAX, &mut out);
    assert_eq!(
        out,
        [0xff, 0xff, 0xff, 0xff, 0xff, 0xff, 0xff, 0xff, 0xff, 0x01]
    );
    let mut slice = out.as_slice();
    assert_eq!(decode_varint(&mut slice), Ok(u64::MAX));
}

#[test]
fn long_varints_are_cut_to_sixty_four_bits() {
    let bytes = [0x80, 0x80, 0x80, 0x80, 0x80, 0x80, 0x80, 0x80, 0x80, 0x7f];
    let mut slice = &bytes[..];
    assert_eq!(decode_varint(&mut slice), Ok(1 << 63));
    let bytes = [0xff; 11];
    let mut slice = &bytes[..];
    assert_eq!(decode_varint(&mut slice), Err(WireError::VarintTooLong));
    assert_eq!(slice.len(), 1);
    let bytes = [0x80, 0x80];
    let mut slice = &bytes[..];
    assert_eq!(decode_varint(&mut slice), Err(WireError::TruncatedVarint));
    assert!(slice.is_empty());
}

#[test]
fn every_kind_of_field_reads_back() {
    let mut bytes = message(vec![varint_field(1, 5), bytes_field(2, b"abc")]);
    bytes.extend([(3 << 3) | 1, 1, 2, 3, 4, 5, 6, 7, 8]);
    bytes.extend([(4 << 3) | 5, 1, 2, 3, 4]);
    let fields = xiaoai_agent::wire::parse_fields(&bytes).unwrap();
    assert_eq!(
        fields,
        vec![
            Field::Varint { number: 1, value: 5 },
            Field::Bytes {
                number: 2,
                value: b"abc".to_vec()
            },
            Field::Fixed64 {
                number: 3,
                value: [1, 2, 3, 4, 5, 6, 7, 8]
            },
            Field::Fixed32 {
                number: 4,
                value: [1, 2, 3, 4]
            },
        ]
    );
    assert_eq!(find_string(&fields, 2).as_deref(), Some("abc"));
    assert_eq!(find_varint(&fields, 2), None);
}

#[test]
fn malformed_messages_are_refused() {
    let strict = xiaoai_agent::wire::parse_fields;
    assert_eq!(strict(&[0x00, 0x01]), Err(WireError::FieldNumberZero));
    assert_eq!(
        parse_fields(&[0x00, 0x01]).unwrap(),
        vec![Field::Varint { number: 0, value: 1 }]
    );
    assert_eq!(strict(&[0x09, 1]), Err(WireError::TruncatedFixed64));
    assert_eq!(strict(&[0x0a, 5, 1]), Err(WireError::TruncatedBytes));
    assert_eq!(strict(&[0x0d, 1]), Err(WireError::TruncatedFixed32));
    assert_eq!(strict(&[0x0b]), Err(WireError::UnsupportedWireType(3)));
    assert_eq!(strict(&[0x80]), Err(WireError::TruncatedVarint));
    assert_eq!(
        WireError::UnsupportedWireType(3).message(),
        "unsupported protobuf wire type 3"
    );
    assert_eq!(WireError::TruncatedBytes.message(), "truncated bytes");
    assert_eq!(
        WireError::FieldNumberZero.message(),
        "protobuf field number 0 is invalid"
    );
}

#[test]
fn text_fields_must_be_utf8() {
    let fields = parse_fields(&bytes_field(1, &[0xff, 0xfe])).unwrap();
    assert_eq!(find_string(&fields, 1), None);
    let fields = parse_fields(&string_field(1, "小爱")).unwrap();
    assert_eq!(find_string(&fields, 1).as_deref(), Some("小爱"));
}
