use redis_stream_bus::codec::{decode, encode};
use redis_stream_bus::error::DecodeError;
use redis_stream_bus::stream::{Field, Stream, Value};

fn field(name: &str, data: &[u8]) -> Field {
    Field::new(name, data.to_vec())
}

#[test]
fn test_basic_message() {
    let payload = Value::new(vec![field("id", b"payload_id")]);
    let stream = Stream::new("key", Some("id".to_string()), payload.clone());

    assert_eq!(stream.id, Some("id".to_string()));
    assert_eq!(stream.key, "key");
    let wire = encode(&stream);
    let decoded = decode(&wire).unwrap();
    assert_eq!(decoded.fields[0].name, "id");
    assert_eq!(decoded.fields[0].data, b"payload_id".to_vec());
    assert_eq!(decoded, payload);
}

#[test]
fn test_headered_message() {
    let payload = Value::new(vec![
        field("wss_id", b"wss_id"),
        field("ws_id", b"ws_id"),
        field("payload", b"Hello There"),
    ]);
    let stream = Stream::new("key", Some("id".to_string()), payload.clone());

    assert_eq!(stream.id, Some("id".to_string()));
    assert_eq!(stream.key, "key");
    let decoded = decode(&encode(&stream)).unwrap();
    assert_eq!(decoded.fields[0].data, b"wss_id".to_vec());
    assert_eq!(decoded.fields[1].data, b"ws_id".to_vec());
    assert_eq!(decoded.fields[2].data, b"Hello There".to_vec());
    assert_eq!(decoded, payload);
}

#[test]
fn round_trip_is_exact() {
    let payload = Value::new(vec![
        field("a", &[0, 1, 2, 255]),
        field("a", b""),
        field("b", b"x"),
    ]);
    let stream = Stream::new("k", None, payload.clone());
    assert_eq!(decode(&encode(&stream)).unwrap(), payload);
}

#[test]
fn encode_omits_the_id() {
    let payload = Value::new(vec![field("f", b"v")]);
    let with_id = Stream::new("k", Some("1-0".to_string()), payload.clone());
    let without_id = Stream::new("k", None, payload);
    assert_eq!(encode(&with_id), encode(&without_id));
    assert_eq!(encode(&with_id).len(), 1);
}

#[test]
fn decode_missing_payload_field_fails() {
    let empty: Vec<Field> = Vec::new();
    assert_eq!(decode(&empty), Err(DecodeError::MissingPayload));
}
