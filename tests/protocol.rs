use cw_sending_bytes::channel::{
    ibc_channel_close, ibc_channel_connect, ibc_channel_open, IbcChannel, IbcOrder,
    PROTOCOL_ORDERING, PROTOCOL_VERSION,
};
use cw_sending_bytes::error::ContractError;
use cw_sending_bytes::msg::{DecodeError, ExecuteMsg, Packet};
use cw_sending_bytes::packet::{
    ack_success, execute, ibc_packet_ack, ibc_packet_receive, ibc_packet_timeout, on_lookup,
    on_packet_failure, AckOutcome, Attribute, ReceiveAction, ReceiveResponse,
};

fn channel(order: IbcOrder, version: &str) -> IbcChannel {
    IbcChannel {
        channel_id: "My-channel".to_string(),
        order,
        version: version.to_string(),
    }
}

fn attr(key: &str, value: &str) -> Attribute {
    Attribute {
        key: key.to_string(),
        value: value.to_string(),
    }
}

fn word(n: u64) -> Vec<u8> {
    let mut w = vec![0u8; 24];
    w.extend_from_slice(&n.to_be_bytes());
    w
}

fn respond(action: ReceiveAction) -> ReceiveResponse {
    match action {
        ReceiveAction::Respond(r) => r,
        ReceiveAction::Lookup { key } => panic!("unexpected lookup of {}", key),
    }
}

#[test]
fn test_ibc_channel_open() {
    let ok = ibc_channel_open(&channel(PROTOCOL_ORDERING, PROTOCOL_VERSION), &None);
    assert!(
        ok.is_ok(),
        "Channel open should succeed with correct protocol version and ordering"
    );
    let wrong = ibc_channel_open(&channel(IbcOrder::Ordered, "not-the-vesion"), &None);
    assert!(
        wrong.is_err(),
        "Channel open should fail with incorrect protocol version"
    );
}

#[test]
fn test_ibc_channel_close() {
    let res = ibc_channel_close(&channel(PROTOCOL_ORDERING, PROTOCOL_VERSION));
    assert!(res.is_err(), "Channel close should return an error");
    let res = res.unwrap_err().message();
    assert_eq!(res, "Generic error: The game is infinite");
}

#[test]
fn basic_test() {
    let bytes = ack_success(String::from("hello"));
    assert_eq!(String::from_utf8(bytes).unwrap(), "hello");
}

#[test]
fn test_ibc_packet_receive() {
    let key = "test_key".to_string();
    let expected_value = "test_value".to_string();
    let packet_data = Packet::Read(key.clone()).encode();
    let looked_up = match ibc_packet_receive(&packet_data) {
        ReceiveAction::Lookup { key: k } => k,
        ReceiveAction::Respond(_) => panic!("a read must be looked up"),
    };
    assert_eq!(looked_up, key);
    let stored = if looked_up == key { Some(expected_value.clone()) } else { None };
    let res = on_lookup(stored);
    assert_eq!(
        res.acknowledgement.to_bytes(),
        expected_value.clone().into_bytes()
    );
    assert_eq!(
        res.attributes,
        vec![
            attr("action", "received_packet"),
            attr("operation", "read"),
            attr("success", "true"),
        ]
    );
}

#[test]
fn test_encode_decode_read() {
    let encoded = Packet::Read("my_key".to_string()).encode();
    let decoded = Packet::decode(&encoded).unwrap();
    assert_eq!(decoded, Packet::Read("my_key".to_string()));
}

#[test]
fn test_encode_decode_write() {
    let encoded = Packet::Write("my_key".to_string(), "my_value".to_string()).encode();
    let decoded = Packet::decode(&encoded).expect("Decoding failed");
    assert_eq!(
        decoded,
        Packet::Write("my_key".to_string(), "my_value".to_string())
    );
}

#[test]
fn encode_read_layout() {
    let encoded = Packet::Read("my_key".to_string()).encode();
    let mut expected = word(0);
    expected.extend(word(64));
    expected.extend(word(6));
    expected.extend_from_slice(b"my_key");
    expected.extend(vec![0u8; 26]);
    assert_eq!(encoded, expected);
}

#[test]
fn encode_write_layout() {
    let key = "k".repeat(33);
    let encoded = Packet::Write(key.clone(), String::new()).encode();
    let mut expected = word(1);
    expected.extend(word(96));
    expected.extend(word(96 + 96));
    expected.extend(word(33));
    expected.extend_from_slice(key.as_bytes());
    expected.extend(vec![0u8; 31]);
    expected.extend(word(0));
    assert_eq!(encoded, expected);
}

#[test]
fn round_trip_unicode_and_empty() {
    for p in [
        Packet::Read(String::new()),
        Packet::Read("ключ-🔑".to_string()),
        Packet::Write(String::new(), String::new()),
        Packet::Write("x".repeat(64), "värde".to_string()),
    ] {
        let encoded = p.clone().encode();
        assert_eq!(encoded.len() % 32, 0);
        assert_eq!(Packet::decode(&encoded), Ok(p));
    }
}

#[test]
fn decode_short_buffer_is_malformed_tag() {
    assert_eq!(Packet::decode(&[]), Err(DecodeError::MalformedTag));
    assert_eq!(Packet::decode(&[0u8; 31]), Err(DecodeError::MalformedTag));
}

#[test]
fn decode_unknown_tag() {
    let mut data = word(2);
    data.extend(word(64));
    data.extend(word(0));
    assert_eq!(Packet::decode(&data), Err(DecodeError::UnknownOperation));
    let mut big = vec![0u8; 96];
    big[0] = 1;
    assert_eq!(Packet::decode(&big), Err(DecodeError::UnknownOperation));
}

#[test]
fn decode_truncated_header() {
    assert_eq!(Packet::decode(&word(0)), Err(DecodeError::TruncatedField));
    let mut write = word(1);
    write.extend(word(96));
    write.extend(vec![0u8; 31]);
    assert_eq!(Packet::decode(&write), Err(DecodeError::TruncatedField));
}

#[test]
fn decode_truncated_fields() {
    let full = Packet::Read("my_key".to_string()).encode();
    assert_eq!(
        Packet::decode(&full[..64 + 32 + 5]),
        Err(DecodeError::TruncatedField)
    );
    let mut far = word(0);
    far.extend(word(1 << 40));
    assert_eq!(Packet::decode(&far), Err(DecodeError::TruncatedField));
    let mut huge = word(0);
    let mut offset = word(64);
    offset[0] = 1;
    huge.extend(offset);
    huge.extend(word(0));
    assert_eq!(Packet::decode(&huge), Err(DecodeError::TruncatedField));
}

#[test]
fn decode_invalid_utf8() {
    let mut data = word(0);
    data.extend(word(64));
    data.extend(word(2));
    data.extend_from_slice(&[0xff, 0xfe]);
    assert_eq!(Packet::decode(&data), Err(DecodeError::InvalidUtf8));
}

#[test]
fn decode_without_padding() {
    let mut data = word(0);
    data.extend(word(64));
    data.extend(word(3));
    data.extend_from_slice(b"abc");
    assert_eq!(Packet::decode(&data), Ok(Packet::Read("abc".to_string())));
}

#[test]
fn channel_open_rejections() {
    let wrong_version = ibc_channel_open(&channel(IbcOrder::Unordered, "v2"), &None);
    assert_eq!(
        wrong_version,
        Err(ContractError::InvalidIbcVersion {
            version: "v2".to_string()
        })
    );
    let ordered = ibc_channel_open(&channel(IbcOrder::Ordered, PROTOCOL_VERSION), &None);
    assert_eq!(ordered, Err(ContractError::OnlyOrderedChannel));
    assert_eq!(
        ordered.unwrap_err().message(),
        "Only supports unordered channel"
    );
}

#[test]
fn channel_connect_checks_counterparty() {
    let good = channel(IbcOrder::Unordered, PROTOCOL_VERSION);
    assert_eq!(
        ibc_channel_connect(&good, &Some(PROTOCOL_VERSION.to_string())),
        Ok(())
    );
    let res = ibc_channel_connect(&good, &Some("other".to_string()));
    assert_eq!(
        res.clone().unwrap_err().message(),
        "Invalid IBC version, got other"
    );
    assert_eq!(
        res,
        Err(ContractError::InvalidIbcVersion {
            version: "other".to_string()
        })
    );
}

#[test]
fn channel_close_fails_for_any_channel() {
    let res = ibc_channel_close(&channel(IbcOrder::Ordered, "anything"));
    assert_eq!(
        res,
        Err(ContractError::Std {
            msg: "The game is infinite".to_string()
        })
    );
}

#[test]
fn packet_receive_missing_key() {
    let data = Packet::Read("missing".to_string()).encode();
    let key = match ibc_packet_receive(&data) {
        ReceiveAction::Lookup { key } => key,
        ReceiveAction::Respond(_) => panic!("a read must be looked up"),
    };
    assert_eq!(key, "missing");
    let res = on_lookup(None);
    assert_eq!(
        res.acknowledgement,
        AckOutcome::Failure {
            reason: "key not found".to_string()
        }
    );
    assert_eq!(res.acknowledgement.to_bytes(), b"key not found".to_vec());
    assert_eq!(
        res.attributes,
        vec![
            attr("action", "received_packet"),
            attr("operation", "read"),
            attr("success", "false"),
            attr("error", "key not found"),
        ]
    );
    assert_eq!(ContractError::KeyNotFound.message(), "key not found");
}

#[test]
fn packet_receive_undecodable() {
    let res = respond(ibc_packet_receive(&[1u8, 2, 3]));
    assert_eq!(
        res.acknowledgement,
        AckOutcome::Failure {
            reason: DecodeError::MalformedTag.description()
        }
    );
    assert_eq!(
        res.attributes,
        vec![
            attr("action", "received_packet"),
            attr("success", "false"),
            attr("error", "malformed operation tag"),
        ]
    );
    let res = respond(ibc_packet_receive(&word(7)));
    assert_eq!(
        res.acknowledgement,
        AckOutcome::Failure {
            reason: "unknown operation".to_string()
        }
    );
    let err = ContractError::EthAbiDecoding {
        reason: DecodeError::TruncatedField,
    };
    assert_eq!(err.message(), "truncated field");
}

#[test]
fn packet_receive_write_is_refused() {
    let data = Packet::Write("k".to_string(), "v".to_string()).encode();
    let res = respond(ibc_packet_receive(&data));
    assert_eq!(
        res.acknowledgement,
        AckOutcome::Failure {
            reason: "write operations are not supported".to_string()
        }
    );
    assert_eq!(
        res.attributes,
        vec![
            attr("action", "received_packet"),
            attr("operation", "write"),
            attr("success", "false"),
            attr("error", "write operations are not supported"),
        ]
    );
}

#[test]
fn ack_and_timeout_records() {
    assert_eq!(ibc_packet_ack(), vec![attr("action", "acknowledge")]);
    assert_eq!(
        ibc_packet_timeout(),
        vec![
            attr("action", "acknowledge"),
            attr("success", "false"),
            attr("error", "timeout"),
        ]
    );
    assert_eq!(
        on_packet_failure("lost".to_string())[2],
        attr("error", "lost")
    );
}

#[test]
fn execute_sets_timeout_and_payload() {
    let packet = Packet::Read("my_key".to_string());
    let msg = ExecuteMsg {
        channel_id: "channel-0".to_string(),
        packet: packet.clone(),
    };
    let sent = execute(1_000, msg);
    assert_eq!(sent.channel_id, "channel-0");
    assert_eq!(sent.timeout_nanos, 1_000 + 300_000_000_000);
    assert_eq!(sent.data, packet.encode());
}

#[test]
fn encodable_sizes() {
    assert!(Packet::Read(String::new()).is_encodable());
    assert!(Packet::Write("k".repeat(1000), "v".repeat(1000)).is_encodable());
}
