use chat_sync::codec::{decode_envelope, decode_message_record, encode_envelope};
use chat_sync::protocol::{DecodeError, Envelope, MsgTypes};

#[test]
fn decode_users_envelope() {
    let wire = br#"{"messageType":"users","dataArray":["alice","bob"]}"#.to_vec();
    let env = decode_envelope(&wire).unwrap();
    assert_eq!(
        env,
        Envelope::Users(vec![b"alice".to_vec(), b"bob".to_vec()])
    );
    assert_eq!(env.kind(), MsgTypes::Users);
}

#[test]
fn decode_message_envelope_and_nested_record() {
    let wire =
        br#"{"messageType":"message","data":"{\"from\":\"bob\",\"message\":\"hi.gif\"}"}"#
            .to_vec();
    let env = decode_envelope(&wire).unwrap();
    let data = match env {
        Envelope::Message(d) => d,
        other => panic!("expected a message envelope, got {:?}", other),
    };
    assert_eq!(data, br#"{"from":"bob","message":"hi.gif"}"#.to_vec());
    let record = decode_message_record(&data).unwrap();
    assert_eq!(record.from, b"bob".to_vec());
    assert_eq!(record.message, b"hi.gif".to_vec());
}

#[test]
fn decode_register_envelope() {
    let wire = br#"{"messageType":"register","data":"alice","dataArray":null}"#.to_vec();
    let env = decode_envelope(&wire).unwrap();
    assert_eq!(env, Envelope::Register(b"alice".to_vec()));
    assert_eq!(env.kind(), MsgTypes::Register);
}

#[test]
fn decode_accepts_any_field_order() {
    let wire = br#"{"dataArray":["a"],"messageType":"users"}"#.to_vec();
    let env = decode_envelope(&wire).unwrap();
    assert_eq!(env, Envelope::Users(vec![b"a".to_vec()]));
}

#[test]
fn decode_accepts_null_unpopulated_field_and_empty_array() {
    let wire = br#"{"messageType":"users","data":null,"dataArray":[]}"#.to_vec();
    let env = decode_envelope(&wire).unwrap();
    assert_eq!(env, Envelope::Users(Vec::new()));
}

#[test]
fn encode_register_envelope() {
    let env = Envelope::Register(b"alice".to_vec());
    let wire = encode_envelope(&env);
    assert_eq!(
        wire,
        br#"{"messageType":"register","data":"alice","dataArray":null}"#.to_vec()
    );
}

#[test]
fn encode_message_envelope() {
    let env = Envelope::Message(b"hello".to_vec());
    let wire = encode_envelope(&env);
    assert_eq!(
        wire,
        br#"{"messageType":"message","data":"hello","dataArray":null}"#.to_vec()
    );
}

#[test]
fn encode_users_envelope() {
    let env = Envelope::Users(vec![b"alice".to_vec(), b"bob".to_vec()]);
    let wire = encode_envelope(&env);
    assert_eq!(
        wire,
        br#"{"messageType":"users","data":null,"dataArray":["alice","bob"]}"#.to_vec()
    );
}

#[test]
fn encode_escapes_and_decode_inverts_them() {
    // quote, backslash, newline, a bare control byte, and a letter
    let body = vec![34u8, 92, 10, 1, 65];
    let env = Envelope::Message(body.clone());
    let wire = encode_envelope(&env);
    assert_eq!(
        wire,
        br#"{"messageType":"message","data":"\"\\\n\u0001A","dataArray":null}"#.to_vec()
    );
    let back = decode_envelope(&wire).unwrap();
    assert_eq!(back, Envelope::Message(body));
}

#[test]
fn decode_supports_ascii_unicode_escape() {
    let wire = br#"{"messageType":"register","data":"\u0041"}"#.to_vec();
    let env = decode_envelope(&wire).unwrap();
    assert_eq!(env, Envelope::Register(b"A".to_vec()));
}

#[test]
fn decode_rejects_wide_unicode_escape() {
    let wire = br#"{"messageType":"register","data":"\u0100"}"#.to_vec();
    assert_eq!(decode_envelope(&wire), Err(DecodeError::Syntax));
}

#[test]
fn decode_rejects_ill_formed_text() {
    assert_eq!(
        decode_envelope(&b"not an envelope".to_vec()),
        Err(DecodeError::Syntax)
    );
    assert_eq!(
        decode_envelope(&br#"{"messageType":"users""#.to_vec()),
        Err(DecodeError::Syntax)
    );
    assert_eq!(decode_envelope(&Vec::new()), Err(DecodeError::Syntax));
}

#[test]
fn decode_rejects_trailing_text() {
    let wire = br#"{"messageType":"register","data":"a"}x"#.to_vec();
    assert_eq!(decode_envelope(&wire), Err(DecodeError::Syntax));
}

#[test]
fn decode_rejects_repeated_key() {
    let wire = br#"{"messageType":"users","messageType":"users","dataArray":[]}"#.to_vec();
    assert_eq!(decode_envelope(&wire), Err(DecodeError::Syntax));
}

#[test]
fn decode_rejects_unknown_kind() {
    let wire = br#"{"messageType":"presence","data":"x"}"#.to_vec();
    assert_eq!(decode_envelope(&wire), Err(DecodeError::Schema));
}

#[test]
fn decode_rejects_missing_payload_field() {
    let wire = br#"{"messageType":"message"}"#.to_vec();
    assert_eq!(decode_envelope(&wire), Err(DecodeError::Schema));
    let wire = br#"{"messageType":"users","data":"x"}"#.to_vec();
    assert_eq!(decode_envelope(&wire), Err(DecodeError::Schema));
    assert_eq!(
        decode_envelope(&b"{}".to_vec()),
        Err(DecodeError::Schema)
    );
}

#[test]
fn decode_rejects_both_payloads_populated() {
    let wire = br#"{"messageType":"users","dataArray":["a"],"data":"x"}"#.to_vec();
    assert_eq!(decode_envelope(&wire), Err(DecodeError::Schema));
    let wire = br#"{"messageType":"message","data":"x","dataArray":["a"]}"#.to_vec();
    assert_eq!(decode_envelope(&wire), Err(DecodeError::Schema));
}

#[test]
fn record_decode_rejects_bad_records() {
    assert_eq!(
        decode_message_record(&b"oops".to_vec()),
        Err(DecodeError::Syntax)
    );
    assert_eq!(
        decode_message_record(&b"{}".to_vec()),
        Err(DecodeError::Schema)
    );
    assert_eq!(
        decode_message_record(&br#"{"from":"bob"}"#.to_vec()),
        Err(DecodeError::Schema)
    );
}
