use v8_bridge::moonbit::{
    bytes_callback_outcome, copy_bytes_to_moonbit, copy_string_to_moonbit,
    decode_moonbit_callback_envelope, json_callback_response, moonbit_array_length_from_meta,
    panic_message, sanitize_error_message, MoonBitCallbackEnvelope, MoonBitCallbackError,
    PanicPayload, ARRAY_LENGTH_MASK,
};

#[test]
fn bytes_are_copied_as_they_are() {
    assert_eq!(copy_bytes_to_moonbit(&[]), Vec::<u8>::new());
    assert_eq!(copy_bytes_to_moonbit(&[0, 255, 7]), vec![0, 255, 7]);
}

#[test]
fn strings_are_copied_as_utf8() {
    assert_eq!(copy_string_to_moonbit("hi"), b"hi".to_vec());
    assert_eq!(copy_string_to_moonbit("é€"), "é€".as_bytes().to_vec());
    assert_eq!(copy_string_to_moonbit(""), Vec::<u8>::new());
}

#[test]
fn array_length_is_the_low_28_bits() {
    assert_eq!(ARRAY_LENGTH_MASK, (1u32 << 28) - 1);
    assert_eq!(moonbit_array_length_from_meta(5), 5);
    assert_eq!(moonbit_array_length_from_meta(0xf000_0005), 5);
    assert_eq!(moonbit_array_length_from_meta(0x0fff_ffff), 0x0fff_ffff);
    assert_eq!(moonbit_array_length_from_meta(u32::MAX), 0x0fff_ffff);
}

#[test]
fn nul_characters_become_spaces() {
    assert_eq!(sanitize_error_message("a\0b\0"), "a b ");
    assert_eq!(sanitize_error_message("plain"), "plain");
    assert_eq!(sanitize_error_message(""), "");
}

#[test]
fn panic_messages() {
    assert_eq!(panic_message(PanicPayload::StaticStr("boom")), "boom");
    assert_eq!(panic_message(PanicPayload::Owned("bang".to_string())), "bang");
    assert_eq!(panic_message(PanicPayload::Opaque), "panic in rusty_v8 bridge");
}

#[test]
fn envelope_with_payload() {
    match decode_moonbit_callback_envelope(vec![0, 1, 2, 3]) {
        Ok(MoonBitCallbackEnvelope::Payload(p)) => assert_eq!(p, vec![1, 2, 3]),
        _ => panic!("expected a payload"),
    }
    match decode_moonbit_callback_envelope(vec![0]) {
        Ok(MoonBitCallbackEnvelope::Payload(p)) => assert!(p.is_empty()),
        _ => panic!("expected an empty payload"),
    }
}

#[test]
fn envelope_with_message_refusal() {
    let mut bytes = vec![1u8];
    bytes.extend_from_slice("nope".as_bytes());
    match decode_moonbit_callback_envelope(bytes) {
        Ok(MoonBitCallbackEnvelope::Refused(MoonBitCallbackError::Message(m))) => {
            assert_eq!(m, "nope")
        }
        _ => panic!("expected a message refusal"),
    }
}

#[test]
fn envelope_with_json_refusal() {
    let mut bytes = vec![2u8];
    bytes.extend_from_slice("{\"code\":1}".as_bytes());
    match decode_moonbit_callback_envelope(bytes) {
        Ok(MoonBitCallbackEnvelope::Refused(MoonBitCallbackError::Json(j))) => {
            assert_eq!(j, "{\"code\":1}")
        }
        _ => panic!("expected a json refusal"),
    }
}

#[test]
fn envelope_errors() {
    assert_eq!(
        decode_moonbit_callback_envelope(vec![]).err().unwrap(),
        "callback returned empty response envelope"
    );
    assert_eq!(
        decode_moonbit_callback_envelope(vec![3, 1]).err().unwrap(),
        "callback returned unknown response envelope"
    );
    assert_eq!(
        decode_moonbit_callback_envelope(vec![1, 0xff, 0xfe]).err().unwrap(),
        "callback rejection returned invalid utf-8"
    );
    assert_eq!(
        decode_moonbit_callback_envelope(vec![2, 0xc3]).err().unwrap(),
        "callback rejection returned invalid utf-8"
    );
}

#[test]
fn bytes_callback_outcomes() {
    assert_eq!(bytes_callback_outcome(Some(vec![0, 9])).ok().unwrap(), vec![9]);
    match bytes_callback_outcome(None) {
        Err(MoonBitCallbackError::Message(m)) => assert_eq!(m, "callback returned null response"),
        _ => panic!("expected a null response error"),
    }
    match bytes_callback_outcome(Some(vec![])) {
        Err(MoonBitCallbackError::Message(m)) => {
            assert_eq!(m, "callback returned empty response envelope")
        }
        _ => panic!("expected an envelope error"),
    }
    match bytes_callback_outcome(Some(vec![2, b'1'])) {
        Err(MoonBitCallbackError::Json(j)) => assert_eq!(j, "1"),
        _ => panic!("expected a json refusal"),
    }
}

#[test]
fn json_callback_payload_must_be_utf8() {
    assert_eq!(json_callback_response(b"[1]".to_vec()).ok().unwrap(), "[1]");
    match json_callback_response(vec![0xff]) {
        Err(MoonBitCallbackError::Message(m)) => assert_eq!(m, "json callback returned invalid utf-8"),
        _ => panic!("expected invalid utf-8"),
    }
}

#[test]
fn envelope_round_trip() {
    let payload = vec![9u8, 0, 255];
    let mut bytes = vec![0u8];
    bytes.extend_from_slice(&payload);
    match decode_moonbit_callback_envelope(bytes) {
        Ok(MoonBitCallbackEnvelope::Payload(p)) => assert_eq!(p, payload),
        _ => panic!("expected the payload back"),
    }
    for text in ["", "héllo → wörld", "{\"a\":[1,2]}"] {
        let mut message = vec![1u8];
        message.extend_from_slice(text.as_bytes());
        match decode_moonbit_callback_envelope(message) {
            Ok(MoonBitCallbackEnvelope::Refused(MoonBitCallbackError::Message(m))) => {
                assert_eq!(m, text)
            }
            _ => panic!("expected the message back"),
        }
        let mut json = vec![2u8];
        json.extend_from_slice(text.as_bytes());
        match decode_moonbit_callback_envelope(json) {
            Ok(MoonBitCallbackEnvelope::Refused(MoonBitCallbackError::Json(j))) => {
                assert_eq!(j, text)
            }
            _ => panic!("expected the json back"),
        }
    }
}
