use emit_hub::channel::{Channel, ChannelSettings, ChannelStatus};
use emit_hub::codec::{encode_channel, encode_envelope, parse_channel};
use emit_hub::message::WebSocketResponse;

fn sample_channel() -> Channel {
    Channel {
        id: 0xabcdef0123456789abcdef0123456789,
        name: "news".to_string(),
        description: Some("daily; headlines: 100%".to_string()),
        status: ChannelStatus::Paused,
        created_at: 1700000000000,
        updated_at: 1700000001234,
        settings: ChannelSettings {
            max_connections: 250,
            allow_client_messages: false,
            persist_messages: true,
            rate_limit_per_minute: Some(12),
        },
    }
}

#[test]
fn test_channel_record_round_trip() {
    let c = sample_channel();
    let record = encode_channel(&c);
    let back = parse_channel(&record).expect("a record of a well-formed channel decodes");
    assert_eq!(back, c);
}

#[test]
fn test_channel_record_round_trip_minimal() {
    let c = Channel {
        id: 1,
        name: "a".to_string(),
        description: None,
        status: ChannelStatus::Created,
        created_at: 0,
        updated_at: 0,
        settings: ChannelSettings {
            max_connections: 0,
            allow_client_messages: true,
            persist_messages: false,
            rate_limit_per_minute: None,
        },
    };
    let record = encode_channel(&c);
    let back = parse_channel(&record).expect("decodes");
    assert_eq!(back, c);
}

#[test]
fn test_channel_record_layout() {
    let c = Channel {
        id: 255,
        name: "x".to_string(),
        description: None,
        status: ChannelStatus::Active,
        created_at: 16,
        updated_at: 16,
        settings: ChannelSettings {
            max_connections: 1,
            allow_client_messages: true,
            persist_messages: false,
            rate_limit_per_minute: None,
        },
    };
    let text: String = encode_channel(&c).into_iter().collect();
    let mut expected = String::new();
    expected.push_str("000000000000000000000000000000ff");
    expected.push_str("0000000000000010");
    expected.push_str("0000000000000010");
    expected.push_str("A");
    expected.push_str("0000000000000001");
    expected.push_str("1");
    expected.push_str("0");
    expected.push_str("0");
    expected.push_str("0000000000000001");
    expected.push_str("x");
    expected.push_str("0");
    assert_eq!(text, expected);
}

#[test]
fn test_bad_records_fail_to_decode() {
    assert!(parse_channel(&Vec::new()).is_none());
    assert!(parse_channel(&"hello".chars().collect()).is_none());

    // a decodable record of an ill-formed channel (empty name) is refused
    let mut c = sample_channel();
    c.name = String::new();
    let record = encode_channel(&c);
    assert!(parse_channel(&record).is_none());

    // trailing junk is refused
    let mut record = encode_channel(&sample_channel());
    record.push('!');
    assert!(parse_channel(&record).is_none());

    // a truncated record is refused
    let mut record = encode_channel(&sample_channel());
    record.pop();
    assert!(parse_channel(&record).is_none());
}

#[test]
fn test_envelope_carries_message_text() {
    let envelope = WebSocketResponse {
        status: "broadcast".to_string(),
        message: "hello".to_string(),
        channel_id: 7,
        timestamp: 123,
        data: None,
    };
    let payload = encode_envelope(&envelope);
    assert!(payload.contains("hello"));
    assert!(payload.contains("broadcast"));
}
