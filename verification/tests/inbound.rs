use wa_core::inbound::{
    decrypted_message_bytes, build_ack_node, build_nack_node, decode_inbound_message_info, decryptable_children,
    extract_addressing_context, pad_random_max16, pad_with_random_byte, parse_inbound_ack, parse_inbound_notification,
    parse_inbound_receipt, plan_inbound_message, prepare_inbound_payload, unpad_random_max16,
    AddressingMode, InboundCiphertextType, InboundMessageKind, InboundPayloadKind,
    InboundReceiptKind, NackReason, PreparedInboundPayload, ACK_ERROR_SMAX_INVALID,
};
use wa_core::node::BinaryNode;

fn message_stanza() -> BinaryNode {
    BinaryNode::new("message")
        .with_attr("id", "msg-1")
        .with_attr("from", "123:1@s.whatsapp.net")
        .with_attr("participant", "456@s.whatsapp.net")
        .with_attr("recipient", "999@s.whatsapp.net")
        .with_attr("type", "text")
}

#[test]
fn builds_ack_and_nack_nodes() {
    let stanza = message_stanza();
    let ack = build_ack_node(&stanza, Some("999:2@s.whatsapp.net"), None).unwrap();
    assert_eq!(ack.tag, "ack");
    assert_eq!(ack.attr_str("id"), Some("msg-1"));
    assert_eq!(ack.attr_str("to"), Some("123:1@s.whatsapp.net"));
    assert_eq!(ack.attr_str("class"), Some("message"));
    assert_eq!(ack.attr_str("from"), Some("999:2@s.whatsapp.net"));
    assert_eq!(ack.attr_str("participant"), Some("456@s.whatsapp.net"));
    assert_eq!(ack.attr_str("recipient"), Some("999@s.whatsapp.net"));
    assert_eq!(ack.attr_str("type"), Some("text"));

    let nack = build_nack_node(&stanza, Some("999:2@s.whatsapp.net"), NackReason::ParsingError)
        .unwrap();
    assert_eq!(nack.attr_str("error"), Some("487"));
}

#[test]
fn rejects_invalid_ack_inputs() {
    assert!(build_ack_node(&BinaryNode::new("message"), None, None).is_err());
    assert!(build_ack_node(
        &BinaryNode::new("message").with_attr("id", "msg-1").with_attr("from", "not-a-jid"),
        None,
        None,
    )
    .is_err());
    assert!(build_ack_node(
        &BinaryNode::new("message")
            .with_attr("id", "msg-1")
            .with_attr("from", "123@s.whatsapp.net"),
        Some("invalid"),
        None,
    )
    .is_err());
}

#[test]
fn parses_inbound_ack_with_error() {
    let ack = BinaryNode::new("ack")
        .with_attr("id", "msg-1")
        .with_attr("class", "message")
        .with_attr("from", "123@s.whatsapp.net")
        .with_attr("error", "479")
        .with_attr("phash", "2:abc");

    let parsed = parse_inbound_ack(&ack).unwrap();
    assert_eq!(parsed.id, "msg-1");
    assert_eq!(parsed.error_code, Some(ACK_ERROR_SMAX_INVALID));
    assert_eq!(parsed.participant_hash.as_deref(), Some("2:abc"));
    assert!(parsed.is_message_error());
    assert!(parse_inbound_ack(&ack.with_attr("error", "nan")).is_err());
}

#[test]
fn parses_inbound_receipt_ids_and_kind() {
    let receipt = BinaryNode::new("receipt")
        .with_attr("id", "m1")
        .with_attr("from", "123@s.whatsapp.net")
        .with_attr("participant", "456@s.whatsapp.net")
        .with_attr("type", "retry")
        .with_attr("t", "10")
        .with_nodes(vec![BinaryNode::new("list").with_nodes(vec![
            BinaryNode::new("item").with_attr("id", "m2"),
            BinaryNode::new("item").with_attr("id", "m3"),
        ])]);

    let parsed = parse_inbound_receipt(&receipt).unwrap();
    assert!(matches!(parsed.kind, InboundReceiptKind::Retry));
    assert_eq!(parsed.kind.as_event_type(), "retry");
    assert_eq!(parsed.timestamp, Some(10));
    assert_eq!(parsed.message_ids, vec!["m1", "m2", "m3"]);
    assert_eq!(parsed.participant.as_deref(), Some("456@s.whatsapp.net"));
}

#[test]
fn parses_inbound_notification_metadata() {
    let notification = BinaryNode::new("notification")
        .with_attr("id", "n1")
        .with_attr("from", "123@s.whatsapp.net")
        .with_attr("participant", "456@s.whatsapp.net")
        .with_attr("type", "devices")
        .with_attr("t", "10");

    let parsed = parse_inbound_notification(&notification).unwrap();
    assert_eq!(parsed.notification_type.as_deref(), Some("devices"));
    assert_eq!(parsed.timestamp, Some(10));
    assert_eq!(parsed.participant.as_deref(), Some("456@s.whatsapp.net"));
}

#[test]
fn extracts_addressing_context() {
    let lid_stanza = BinaryNode::new("message")
        .with_attr("from", "abc@lid")
        .with_attr("sender_pn", "123@s.whatsapp.net")
        .with_attr("recipient_pn", "999@s.whatsapp.net");
    let context = extract_addressing_context(&lid_stanza);
    assert!(matches!(context.mode, AddressingMode::Lid));
    assert_eq!(context.sender_alt.as_deref(), Some("123@s.whatsapp.net"));
    assert_eq!(context.recipient_alt.as_deref(), Some("999@s.whatsapp.net"));

    let pn_stanza = BinaryNode::new("message")
        .with_attr("from", "123@s.whatsapp.net")
        .with_attr("sender_lid", "abc@lid");
    let context = extract_addressing_context(&pn_stanza);
    assert!(matches!(context.mode, AddressingMode::PhoneNumber));
    assert_eq!(context.sender_alt.as_deref(), Some("abc@lid"));
}

#[test]
fn decodes_chat_message_info() {
    let stanza = BinaryNode::new("message")
        .with_attr("id", "msg-1")
        .with_attr("from", "123@s.whatsapp.net")
        .with_attr("notify", "Alice")
        .with_attr("t", "10");

    let info = decode_inbound_message_info(&stanza, "999@s.whatsapp.net", Some("own@lid")).unwrap();
    assert_eq!(info.kind, InboundMessageKind::Chat);
    assert_eq!(info.key.remote_jid.as_deref(), Some("123@s.whatsapp.net"));
    assert_eq!(info.key.from_me, Some(false));
    assert_eq!(info.key.participant, None);
    assert_eq!(info.author, "123@s.whatsapp.net");
    assert_eq!(info.sender, "123@s.whatsapp.net");
    assert_eq!(info.push_name.as_deref(), Some("Alice"));
    assert_eq!(info.timestamp, Some(10));
}

#[test]
fn decodes_own_device_message_info_with_recipient() {
    let stanza = BinaryNode::new("message")
        .with_attr("id", "msg-1")
        .with_attr("from", "999:2@s.whatsapp.net")
        .with_attr("recipient", "123@s.whatsapp.net");

    let info = decode_inbound_message_info(&stanza, "999@s.whatsapp.net", Some("own@lid")).unwrap();
    assert_eq!(info.key.remote_jid.as_deref(), Some("123@s.whatsapp.net"));
    assert_eq!(info.key.from_me, Some(true));
    assert!(decode_inbound_message_info(&stanza, "111@s.whatsapp.net", Some("own@lid")).is_err());
}

#[test]
fn decodes_group_broadcast_and_newsletter_message_info() {
    let group = BinaryNode::new("message")
        .with_attr("id", "g1")
        .with_attr("from", "123@g.us")
        .with_attr("participant", "999@s.whatsapp.net");
    let info = decode_inbound_message_info(&group, "999@s.whatsapp.net", Some("own@lid")).unwrap();
    assert_eq!(info.kind, InboundMessageKind::Group);
    assert_eq!(info.key.remote_jid.as_deref(), Some("123@g.us"));
    assert_eq!(info.key.participant.as_deref(), Some("999@s.whatsapp.net"));
    assert_eq!(info.key.from_me, Some(true));
    assert_eq!(info.author, "999@s.whatsapp.net");
    assert_eq!(info.sender, "123@g.us");

    let status = BinaryNode::new("message")
        .with_attr("id", "s1")
        .with_attr("from", "status@broadcast")
        .with_attr("participant", "123@s.whatsapp.net");
    let info = decode_inbound_message_info(&status, "999@s.whatsapp.net", Some("own@lid")).unwrap();
    assert_eq!(info.kind, InboundMessageKind::OtherStatus);

    let newsletter = BinaryNode::new("message")
        .with_attr("id", "n1")
        .with_attr("from", "abc@newsletter");
    let info = decode_inbound_message_info(&newsletter, "999@s.whatsapp.net", None).unwrap();
    assert_eq!(info.kind, InboundMessageKind::Newsletter);
    assert_eq!(info.key.remote_jid.as_deref(), Some("abc@newsletter"));
}

#[test]
fn rejects_malformed_message_info() {
    assert!(decode_inbound_message_info(
        &BinaryNode::new("message").with_attr("id", "m1").with_attr("from", "123@g.us"),
        "999@s.whatsapp.net",
        None,
    )
    .is_err());
    assert!(decode_inbound_message_info(
        &BinaryNode::new("message")
            .with_attr("id", "m1")
            .with_attr("from", "123@s.whatsapp.net")
            .with_attr("t", "nan"),
        "999@s.whatsapp.net",
        None,
    )
    .is_err());
}

#[test]
fn pads_random_max16_payloads() {
    let padded = pad_random_max16(b"hello");
    assert!(padded.len() > 5);
    let pad_len = usize::from(*padded.last().unwrap());
    assert!((1..=16).contains(&pad_len));
    assert!(padded[padded.len() - pad_len..].iter().all(|byte| usize::from(*byte) == pad_len));
    assert_eq!(unpad_random_max16(&padded).unwrap(), b"hello".to_vec());
}

#[test]
fn rejects_malformed_padding() {
    assert!(unpad_random_max16(&[]).is_err());
    assert!(unpad_random_max16(&[1, 2, 17]).is_err());
    assert!(unpad_random_max16(&[1, 3, 2]).is_err());
    assert!(unpad_random_max16(&[0]).is_err());
    assert_eq!(unpad_random_max16(&[7, 2, 2]).unwrap(), vec![7]);
    assert_eq!(unpad_random_max16(&[1]).unwrap(), Vec::<u8>::new());
}

#[test]
fn prepares_plaintext_and_encrypted_payloads() {
    let stanza = BinaryNode::new("message")
        .with_attr("id", "msg-1")
        .with_attr("from", "123@s.whatsapp.net")
        .with_nodes(vec![
            BinaryNode::new("plaintext").with_bytes(b"plain".to_vec()),
            BinaryNode::new("other"),
            BinaryNode::new("enc").with_attr("type", "msg").with_bytes(b"ciphertext".to_vec()),
        ]);
    let (info, nodes) = plan_inbound_message(&stanza, "999@s.whatsapp.net", Some("own@lid")).unwrap();
    assert_eq!(nodes.len(), 2);
    assert_eq!(decryptable_children(&stanza).len(), 2);
    match prepare_inbound_payload(&info, nodes[0]).unwrap() {
        PreparedInboundPayload::Plaintext(b) => assert_eq!(b, b"plain".to_vec()),
        _ => panic!("expected plaintext"),
    }
    match prepare_inbound_payload(&info, nodes[1]).unwrap() {
        PreparedInboundPayload::Encrypted(p) => {
            assert_eq!(p.sender_jid, "123@s.whatsapp.net");
            assert_eq!(p.chat_jid, "123@s.whatsapp.net");
            assert_eq!(p.ciphertext_type, InboundCiphertextType::Message);
            assert_eq!(p.ciphertext, b"ciphertext".to_vec());
            assert_eq!(InboundPayloadKind::Encrypted(p.ciphertext_type).as_str(), "msg");
        }
        _ => panic!("expected ciphertext"),
    }
    let bad = BinaryNode::new("enc").with_attr("type", "unknown").with_bytes(b"x".to_vec());
    assert!(prepare_inbound_payload(&info, &bad).is_err());
    let empty = BinaryNode::new("message")
        .with_attr("id", "msg-1")
        .with_attr("from", "123@s.whatsapp.net");
    assert!(plan_inbound_message(&empty, "999@s.whatsapp.net", None).is_err());
}

#[test]
fn receipt_kinds_round_trip_through_wire_values() {
    assert!(matches!(InboundReceiptKind::from_wire(None), InboundReceiptKind::Delivery));
    assert!(matches!(InboundReceiptKind::from_wire(Some("")), InboundReceiptKind::Delivery));
    for v in ["read", "read-self", "hist_sync", "peer_msg", "sender", "inactive", "played", "retry", "server-error", "custom"] {
        assert_eq!(InboundReceiptKind::from_wire(Some(v)).as_event_type(), v);
    }
    assert_eq!(NackReason::DbOperationFailed.code(), 552);
    assert_eq!(InboundMessageKind::DirectPeerStatus.as_str(), "direct_peer_status");
}

#[test]
fn inbound_errors_name_the_broken_rule() {
    let err = build_ack_node(&BinaryNode::new("message"), None, None).unwrap_err();
    assert_eq!(err.message(), "protocol error: message node missing id attribute");
    let err = build_ack_node(
        &BinaryNode::new("message").with_attr("id", "m").with_attr("from", "not-a-jid"),
        None,
        None,
    )
    .unwrap_err();
    assert_eq!(err.message(), "protocol error: invalid ack destination JID: not-a-jid");
    let err = build_ack_node(
        &BinaryNode::new("message").with_attr("id", "m").with_attr("from", "1@s.whatsapp.net"),
        Some("invalid"),
        None,
    )
    .unwrap_err();
    assert_eq!(err.message(), "protocol error: invalid ack sender JID: invalid");

    let ack = || BinaryNode::new("ack").with_attr("id", "m").with_attr("class", "message");
    let err = parse_inbound_ack(&ack().with_attr("error", "nan")).unwrap_err();
    assert_eq!(err.message(), "protocol error: invalid error attribute: invalid digit found in string");
    let err = parse_inbound_ack(&ack().with_attr("error", "70000")).unwrap_err();
    assert_eq!(
        err.message(),
        "protocol error: invalid error attribute: number too large to fit in target type"
    );
    let err = parse_inbound_ack(&ack().with_attr("error", "")).unwrap_err();
    assert_eq!(
        err.message(),
        "protocol error: invalid error attribute: cannot parse integer from empty string"
    );
    let err = parse_inbound_ack(&BinaryNode::new("receipt")).unwrap_err();
    assert_eq!(err.message(), "protocol error: expected ack node, got receipt");

    let receipt = BinaryNode::new("receipt")
        .with_attr("id", "r")
        .with_attr("from", "1@s.whatsapp.net")
        .with_nodes(vec![BinaryNode::new("list").with_nodes(vec![
            BinaryNode::new("item").with_attr("id", "a"),
            BinaryNode::new("item").with_attr("id", ""),
        ])]);
    let err = parse_inbound_receipt(&receipt).unwrap_err();
    assert_eq!(err.message(), "protocol error: id must not be empty");

    let notification = BinaryNode::new("notification").with_attr("id", "n");
    let err = parse_inbound_notification(&notification).unwrap_err();
    assert_eq!(err.message(), "protocol error: notification node missing from attribute");

    let group = BinaryNode::new("message")
        .with_attr("id", "g")
        .with_attr("from", "123-456@g.us");
    let err = decode_inbound_message_info(&group, "999@s.whatsapp.net", None).unwrap_err();
    assert_eq!(err.message(), "protocol error: group message is missing participant JID");
    let err = decode_inbound_message_info(&group, "bad", None).unwrap_err();
    assert_eq!(err.message(), "protocol error: invalid own JID: bad");
    let call = BinaryNode::new("message").with_attr("id", "c").with_attr("from", "1@call");
    let err = decode_inbound_message_info(&call, "999@s.whatsapp.net", None).unwrap_err();
    assert_eq!(err.message(), "protocol error: unsupported message sender JID server: call");
    let err = plan_inbound_message(
        &BinaryNode::new("message").with_attr("id", "x").with_attr("from", "1@s.whatsapp.net"),
        "999@s.whatsapp.net",
        None,
    )
    .unwrap_err();
    assert_eq!(err.message(), "protocol error: message stanza contains no decryptable payload");

    let info = decode_inbound_message_info(&message_stanza(), "123@s.whatsapp.net", None).unwrap();
    let err = prepare_inbound_payload(&info, &BinaryNode::new("enc").with_attr("type", "frank"))
        .unwrap_err();
    assert_eq!(err.message(), "protocol error: unsupported inbound ciphertext type: frank");
    let err = prepare_inbound_payload(&info, &BinaryNode::new("enc").with_attr("type", "msg"))
        .unwrap_err();
    assert_eq!(err.message(), "protocol error: enc node is missing bytes");
    let err = prepare_inbound_payload(&info, &BinaryNode::new("skdm")).unwrap_err();
    assert_eq!(err.message(), "protocol error: unsupported inbound payload node: skdm");
}

#[test]
fn decrypted_message_bytes_drop_padding() {
    let (kind, bytes) = decrypted_message_bytes(InboundCiphertextType::PreKey, &[7, 8, 2, 2]).unwrap();
    assert_eq!(kind, InboundPayloadKind::Encrypted(InboundCiphertextType::PreKey));
    assert_eq!(bytes, vec![7, 8]);
    let err = decrypted_message_bytes(InboundCiphertextType::Message, &[1, 2, 17]).unwrap_err();
    assert_eq!(err.message(), "protocol error: invalid random padding length 17 for 3 bytes");
    let err = decrypted_message_bytes(InboundCiphertextType::Message, &[1, 3, 2]).unwrap_err();
    assert_eq!(err.message(), "protocol error: random padding bytes are inconsistent");
}

#[test]
fn random_byte_chooses_the_padding_length() {
    assert_eq!(pad_with_random_byte(b"hi", 35), b"hi\x04\x04\x04\x04".to_vec());
    assert_eq!(pad_with_random_byte(b"", 15), vec![16u8; 16]);
    assert_eq!(pad_with_random_byte(b"x", 0), b"x\x01".to_vec());
    assert_eq!(unpad_random_max16(&pad_with_random_byte(b"hello", 200)).unwrap(), b"hello".to_vec());
}
