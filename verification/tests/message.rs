use sha2::Digest;
use wa_core::message::{
    validate_remote_media_thumbnail, validate_uploaded_media, UploadedMedia,
    aggregate_receipts_from_message_keys, build_call_reject_node, build_media_retry_request_node,
    build_message_key, build_receipt_node, generate_message_id, generate_message_id_v2,
    generate_participant_hash_v2, parse_media_retry_update, upper_hex, LinkPreviewContent,
    LinkPreviewThumbnail, MediaRetryError, MediaRetryPayload, MessageReceipt, MessageReceiptType,
    PollVoteContent, RemoteMediaThumbnail, MESSAGE_ID_PREFIX, MessageContext, QuotedMessage,
};
use wa_core::node::BinaryNode;

fn strings(ids: &[&str]) -> Vec<String> {
    ids.iter().map(|s| s.to_string()).collect()
}

#[test]
fn generated_message_ids_have_expected_shape() {
    let id = generate_message_id();
    assert_eq!(id.len(), 40);
    assert!(id.starts_with(MESSAGE_ID_PREFIX));
    assert!(id.chars().all(|ch| ch.is_ascii_hexdigit()));

    let id = generate_message_id_v2(Some("12345@s.whatsapp.net"), 1, &[7u8; 16]);
    assert_eq!(id.len(), 22);
    assert!(id.starts_with(MESSAGE_ID_PREFIX));
    assert_eq!(id, generate_message_id_v2(Some("12345@s.whatsapp.net"), 1, &[7u8; 16]));
    assert_ne!(id, generate_message_id_v2(Some("99999@s.whatsapp.net"), 1, &[7u8; 16]));
}

#[test]
fn message_ids_v2_depend_on_time_and_randomness() {
    let base = generate_message_id_v2(None, 1, &[7u8; 16]);
    assert_ne!(base, generate_message_id_v2(None, 2, &[7u8; 16]));
    assert_ne!(base, generate_message_id_v2(None, 1, &[8u8; 16]));
    assert_eq!(base, generate_message_id_v2(Some("not-a-jid"), 1, &[7u8; 16]));
    assert!(base[4..].chars().all(|c| c.is_ascii_digit() || ('A'..='F').contains(&c)));
}

#[test]
fn upper_hex_renders_each_byte_as_two_digits() {
    let hex: String = upper_hex(&[0x00, 0x0f, 0xa5, 0xff]).into_iter().collect();
    assert_eq!(hex, "000FA5FF");
}

#[test]
fn generates_sorted_participant_hash_v2() {
    let hash = generate_participant_hash_v2(&["999:2@s.whatsapp.net", "123:1@s.whatsapp.net"]).unwrap();
    assert_eq!(hash, "2:305nmK");
    assert_eq!(
        hash,
        generate_participant_hash_v2(&["123:1@s.whatsapp.net", "999:2@s.whatsapp.net"]).unwrap()
    );
    assert!(generate_participant_hash_v2(&["invalid"]).is_err());
}

#[test]
fn participant_hash_of_no_participants_is_the_empty_digest() {
    // SHA-256 of nothing starts e3b0c442: base64 "47DEQp..."
    assert_eq!(generate_participant_hash_v2(&[]).unwrap(), "2:47DEQp");
    let err = generate_participant_hash_v2(&["123@s.whatsapp.net", "bad"]).unwrap_err();
    assert_eq!(err.message(), "payload error: invalid participant JID for participant hash: bad");
}

#[test]
fn builds_validated_message_key() {
    let key = build_message_key("123@s.whatsapp.net", true, "msg-1", Some("456@s.whatsapp.net".to_owned())).unwrap();

    assert_eq!(key.remote_jid.as_deref(), Some("123@s.whatsapp.net"));
    assert_eq!(key.from_me, Some(true));
    assert_eq!(key.id.as_deref(), Some("msg-1"));
    assert_eq!(key.participant.as_deref(), Some("456@s.whatsapp.net"));
    assert!(build_message_key("not-a-jid", true, "msg-1", None).is_err());
    assert!(build_message_key("123@s.whatsapp.net", true, "", None).is_err());
}

#[test]
fn builds_receipt_nodes_with_list_and_timestamp() {
    let receipt = MessageReceipt::new("123@s.whatsapp.net", Some("456@s.whatsapp.net".to_owned()), strings(&["m1", "m2", "m3"]));
    let node = build_receipt_node(&receipt, MessageReceiptType::Read, Some(99)).unwrap();

    assert_eq!(node.tag, "receipt");
    assert_eq!(node.attr_str("id"), Some("m1"));
    assert_eq!(node.attr_str("to"), Some("123@s.whatsapp.net"));
    assert_eq!(node.attr_str("participant"), Some("456@s.whatsapp.net"));
    assert_eq!(node.attr_str("type"), Some("read"));
    assert_eq!(node.attr_str("t"), Some("99"));
    let content = node.child_list();
    assert_eq!(content.len(), 1);
    assert_eq!(content[0].tag, "list");
    let items = content[0].child_list();
    assert_eq!(items[0].attr_str("id"), Some("m2"));
    assert_eq!(items[1].attr_str("id"), Some("m3"));
}

#[test]
fn read_receipts_require_a_timestamp_and_ids() {
    let receipt = MessageReceipt::new("123@s.whatsapp.net", None, strings(&["m1"]));
    assert!(build_receipt_node(&receipt, MessageReceiptType::Read, None).is_err());
    let delivery = build_receipt_node(&receipt, MessageReceiptType::Delivery, None).unwrap();
    assert_eq!(delivery.attr_str("type"), None);
    assert!(delivery.child_list().is_empty());
    let empty = MessageReceipt::new("123@s.whatsapp.net", None, Vec::new());
    assert!(build_receipt_node(&empty, MessageReceiptType::Delivery, None).is_err());
}

#[test]
fn builds_sender_receipt_with_recipient_addressing() {
    let receipt = MessageReceipt::new("123@s.whatsapp.net", Some("456:1@s.whatsapp.net".to_owned()), strings(&["m1"]));
    let node = build_receipt_node(&receipt, MessageReceiptType::Sender, None).unwrap();

    assert_eq!(node.attr_str("id"), Some("m1"));
    assert_eq!(node.attr_str("type"), Some("sender"));
    assert_eq!(node.attr_str("recipient"), Some("123@s.whatsapp.net"));
    assert_eq!(node.attr_str("to"), Some("456:1@s.whatsapp.net"));
    assert_eq!(node.attr_str("participant"), None);
}

#[test]
fn builds_call_reject_node() {
    let node = build_call_reject_node("999:2@s.whatsapp.net", "123@s.whatsapp.net", "call-1").unwrap();

    assert_eq!(node.tag, "call");
    assert_eq!(node.attr_str("from"), Some("999:2@s.whatsapp.net"));
    assert_eq!(node.attr_str("to"), Some("123@s.whatsapp.net"));
    let children = node.child_list();
    assert_eq!(children.len(), 1);
    assert_eq!(children[0].tag, "reject");
    assert_eq!(children[0].attr_str("call-id"), Some("call-1"));
    assert_eq!(children[0].attr_str("call-creator"), Some("123@s.whatsapp.net"));
    assert_eq!(children[0].attr_str("count"), Some("0"));

    assert!(build_call_reject_node("invalid", "123@s.whatsapp.net", "call-1").is_err());
    assert!(build_call_reject_node("999@s.whatsapp.net", "invalid", "call-1").is_err());
    assert!(build_call_reject_node("999@s.whatsapp.net", "123@s.whatsapp.net", "").is_err());
}

#[test]
fn builds_and_parses_media_retry_request_node() {
    let key = build_message_key("123@s.whatsapp.net", false, "msg-1", Some("456:1@s.whatsapp.net".to_owned())).unwrap();
    let payload = MediaRetryPayload::new(b"ciphertext".to_vec(), vec![4u8; 12]);
    let node = build_media_retry_request_node(&key, "999:7@c.us", payload.clone()).unwrap();

    assert_eq!(node.tag, "receipt");
    assert_eq!(node.attr_str("id"), Some("msg-1"));
    assert_eq!(node.attr_str("to"), Some("999@s.whatsapp.net"));
    assert_eq!(node.attr_str("type"), Some("server-error"));
    let encrypt = node.child_node("encrypt").unwrap();
    assert_eq!(encrypt.child_node("enc_p").unwrap().content_bytes().unwrap(), &payload.ciphertext);
    assert_eq!(encrypt.child_node("enc_iv").unwrap().content_bytes().unwrap(), &payload.iv);
    let retry = node.child_node("rmr").unwrap();
    assert_eq!(retry.attr_str("jid"), Some("123@s.whatsapp.net"));
    assert_eq!(retry.attr_str("from_me"), Some("false"));
    assert_eq!(retry.attr_str("participant"), Some("456:1@s.whatsapp.net"));

    let update = parse_media_retry_update(&node).unwrap();
    assert_eq!(update.key, key);
    assert_eq!(update.media, Some(payload));
    assert_eq!(update.error, None);
}

#[test]
fn parses_media_retry_error_update() {
    let node = BinaryNode::new("receipt").with_attr("id", "msg-1").with_nodes(vec![
        BinaryNode::new("rmr").with_attr("jid", "123@s.whatsapp.net").with_attr("from_me", "true"),
        BinaryNode::new("error").with_attr("code", "2").with_attr("text", "missing"),
    ]);

    let update = parse_media_retry_update(&node).unwrap();
    assert_eq!(update.key, build_message_key("123@s.whatsapp.net", true, "msg-1", None).unwrap());
    assert_eq!(update.media, None);
    assert_eq!(
        update.error,
        Some(MediaRetryError { code: 2, text: Some("missing".to_owned()), status_code: 404 })
    );
}

#[test]
fn parses_media_retry_notification_update() {
    let node = BinaryNode::new("notification")
        .with_attr("id", "msg-2")
        .with_attr("type", "mediaretry")
        .with_nodes(vec![
            BinaryNode::new("rmr")
                .with_attr("jid", "123@s.whatsapp.net")
                .with_attr("from_me", "false")
                .with_attr("participant", "456@s.whatsapp.net"),
            BinaryNode::new("encrypt").with_nodes(vec![
                BinaryNode::new("enc_p").with_bytes(b"retry-payload".to_vec()),
                BinaryNode::new("enc_iv").with_bytes(vec![7u8; 12]),
            ]),
        ]);

    let update = parse_media_retry_update(&node).unwrap();
    assert_eq!(
        update.key,
        build_message_key("123@s.whatsapp.net", false, "msg-2", Some("456@s.whatsapp.net".to_owned())).unwrap()
    );
    assert_eq!(update.media, Some(MediaRetryPayload::new(b"retry-payload".to_vec(), vec![7u8; 12])));
    assert_eq!(update.error, None);
}

#[test]
fn media_retry_update_errors() {
    let no_key = BinaryNode::new("receipt").with_attr("id", "msg-1");
    assert!(parse_media_retry_update(&no_key).is_err());
    let bad_iv = BinaryNode::new("receipt").with_attr("id", "msg-1").with_nodes(vec![
        BinaryNode::new("rmr").with_attr("jid", "123@s.whatsapp.net").with_attr("from_me", "true"),
        BinaryNode::new("encrypt").with_nodes(vec![
            BinaryNode::new("enc_p").with_bytes(vec![1]),
            BinaryNode::new("enc_iv").with_bytes(vec![7u8; 11]),
        ]),
    ]);
    assert!(parse_media_retry_update(&bad_iv).is_err());
}

#[test]
fn aggregates_receipts_from_message_keys() {
    let keys = vec![
        build_message_key("123@s.whatsapp.net", false, "m1", Some("456@s.whatsapp.net".to_owned())).unwrap(),
        build_message_key("123@s.whatsapp.net", false, "m2", Some("456@s.whatsapp.net".to_owned())).unwrap(),
        build_message_key("123@s.whatsapp.net", true, "own", None).unwrap(),
        build_message_key("999@s.whatsapp.net", false, "m3", None).unwrap(),
    ];

    let receipts = aggregate_receipts_from_message_keys(&keys).unwrap();
    assert_eq!(
        receipts,
        vec![
            MessageReceipt {
                remote_jid: "123@s.whatsapp.net".to_owned(),
                participant: Some("456@s.whatsapp.net".to_owned()),
                message_ids: vec!["m1".to_owned(), "m2".to_owned()],
            },
            MessageReceipt {
                remote_jid: "999@s.whatsapp.net".to_owned(),
                participant: None,
                message_ids: vec!["m3".to_owned()],
            },
        ]
    );
}

#[test]
fn aggregation_of_own_messages_only_is_empty() {
    let keys = vec![build_message_key("123@s.whatsapp.net", true, "own", None).unwrap()];
    assert!(aggregate_receipts_from_message_keys(&keys).unwrap().is_empty());
}

#[test]
fn link_preview_content_builders_set_fields() {
    let thumb = LinkPreviewThumbnail::new("/thumb", vec![1; 32], vec![2; 32], vec![3; 32])
        .with_media_key_timestamp(7)
        .with_dimensions(320, 240);
    assert_eq!(thumb.width, Some(320));
    assert_eq!(thumb.height, Some(240));
    assert_eq!(thumb.media_key_timestamp, Some(7));
    let content = LinkPreviewContent::new("https://x.example", "Title")
        .with_description("About")
        .with_jpeg_thumbnail(vec![9, 9])
        .with_high_quality_thumbnail(thumb.clone());
    assert_eq!(content.matched_text, "https://x.example");
    assert_eq!(content.title, "Title");
    assert_eq!(content.description.as_deref(), Some("About"));
    assert_eq!(content.jpeg_thumbnail, Some(vec![9, 9]));
    assert_eq!(content.high_quality_thumbnail, Some(thumb));
    let remote = RemoteMediaThumbnail::new("/r", vec![1; 32], vec![2; 32]).with_dimensions(1, 2);
    assert_eq!((remote.width, remote.height), (Some(1), Some(2)));
}

#[test]
fn poll_votes_hash_option_names() {
    let key = build_message_key("123@s.whatsapp.net", true, "poll-1", None).unwrap();
    let vote = PollVoteContent::from_option_names(key.clone(), &["Yes", "No"], vec![9; 32], "123@s.whatsapp.net", "456@s.whatsapp.net")
        .unwrap()
        .with_sender_timestamp_ms(5)
        .without_metadata();
    assert_eq!(vote.selected_option_hashes, vec![sha2::Sha256::digest(b"Yes").to_vec(), sha2::Sha256::digest(b"No").to_vec()]);
    assert_eq!(vote.poll_creation_message_key, key);
    assert_eq!(vote.sender_timestamp_ms, Some(5));
    assert!(!vote.include_metadata);
    let err = PollVoteContent::from_option_names(key, &["Yes", ""], vec![], "a@s.whatsapp.net", "b@s.whatsapp.net").unwrap_err();
    assert_eq!(err.message(), "payload error: selected poll option must not be empty");
}

#[test]
fn message_errors_name_the_broken_rule() {
    let no_rmr = BinaryNode::new("receipt").with_attr("id", "msg-1");
    let err = parse_media_retry_update(&no_rmr).unwrap_err();
    assert_eq!(err.message(), "protocol error: media retry node missing rmr node");
    let empty_id = BinaryNode::new("receipt").with_attr("id", "");
    let err = parse_media_retry_update(&empty_id).unwrap_err();
    assert_eq!(err.message(), "payload error: media retry node id must not be empty");
    let short_iv = BinaryNode::new("receipt").with_attr("id", "msg-1").with_nodes(vec![
        BinaryNode::new("rmr").with_attr("jid", "123@s.whatsapp.net"),
        BinaryNode::new("encrypt").with_nodes(vec![
            BinaryNode::new("enc_p").with_bytes(vec![1]),
            BinaryNode::new("enc_iv").with_bytes(vec![7u8; 11]),
        ]),
    ]);
    let err = parse_media_retry_update(&short_iv).unwrap_err();
    assert_eq!(err.message(), "payload error: media retry iv must be 12 bytes");
    let text_iv = BinaryNode::new("notification").with_attr("id", "msg-1").with_nodes(vec![
        BinaryNode::new("rmr").with_attr("jid", "123@s.whatsapp.net"),
        BinaryNode::new("encrypt").with_nodes(vec![
            BinaryNode::new("enc_p").with_bytes(vec![1]),
            BinaryNode::new("enc_iv").with_text("iv"),
        ]),
    ]);
    let err = parse_media_retry_update(&text_iv).unwrap_err();
    assert_eq!(err.message(), "protocol error: expected bytes content in enc_iv node");
    let bad_code = BinaryNode::new("receipt").with_attr("id", "msg-1").with_nodes(vec![
        BinaryNode::new("rmr").with_attr("jid", "123@s.whatsapp.net"),
        BinaryNode::new("error").with_attr("code", "x"),
    ]);
    let err = parse_media_retry_update(&bad_code).unwrap_err();
    assert_eq!(err.message(), "protocol error: invalid media retry error code");

    let key = build_message_key("123@s.whatsapp.net", false, "msg-1", None).unwrap();
    let payload = MediaRetryPayload::new(b"c".to_vec(), vec![4u8; 12]);
    let err = build_media_retry_request_node(&key, "nobody", payload).unwrap_err();
    assert_eq!(err.message(), "payload error: invalid requester JID for media retry: nobody");
    let err = build_media_retry_request_node(&key, "1@s.whatsapp.net", MediaRetryPayload::new(vec![], vec![4u8; 12]))
        .unwrap_err();
    assert_eq!(err.message(), "payload error: media retry ciphertext must not be empty");

    let err = generate_participant_hash_v2(&["1@s.whatsapp.net", "bad", "worse"]).unwrap_err();
    assert_eq!(err.message(), "payload error: invalid participant JID for participant hash: bad");

    let mut keys = vec![build_message_key("123@s.whatsapp.net", false, "m1", None).unwrap()];
    let mut broken = build_message_key("123@s.whatsapp.net", false, "m2", None).unwrap();
    broken.id = Some(String::new());
    keys.push(broken);
    let err = aggregate_receipts_from_message_keys(&keys).unwrap_err();
    assert_eq!(err.message(), "payload error: message key id must not be empty for receipt");
}

#[test]
fn validates_uploaded_media_and_remote_thumbnails() {
    let media = UploadedMedia::new(vec![1u8; 32], vec![2u8; 32], vec![3u8; 32], 9).with_direct_path("/m");
    assert!(validate_uploaded_media(&media).is_ok());
    let no_location = UploadedMedia::new(vec![1u8; 32], vec![2u8; 32], vec![3u8; 32], 9);
    assert_eq!(
        validate_uploaded_media(&no_location).unwrap_err().message(),
        "payload error: uploaded media requires a URL or direct path"
    );
    let empty_url = UploadedMedia::new(vec![1u8; 32], vec![2u8; 32], vec![3u8; 32], 9)
        .with_direct_path("/m")
        .with_url("");
    assert_eq!(validate_uploaded_media(&empty_url).unwrap_err().message(), "payload error: media URL must not be empty");
    let empty = UploadedMedia::new(vec![1u8; 32], vec![2u8; 32], vec![3u8; 32], 0).with_direct_path("/m");
    assert_eq!(
        validate_uploaded_media(&empty).unwrap_err().message(),
        "payload error: uploaded media file length must be greater than zero"
    );
    let short = UploadedMedia::new(vec![1u8; 32], vec![2u8; 31], vec![3u8; 32], 9).with_direct_path("/m");
    assert_eq!(
        validate_uploaded_media(&short).unwrap_err().message(),
        "payload error: media file SHA-256 must be 32 bytes"
    );

    let thumb = RemoteMediaThumbnail::new("/t", vec![1u8; 32], vec![2u8; 32]);
    assert_eq!(validate_remote_media_thumbnail(thumb.clone()).unwrap(), thumb);
    let zero = RemoteMediaThumbnail::new("/t", vec![1u8; 32], vec![2u8; 32]).with_dimensions(0, 5);
    assert_eq!(
        validate_remote_media_thumbnail(zero).unwrap_err().message(),
        "payload error: remote media thumbnail width must be greater than zero"
    );
    let bad = RemoteMediaThumbnail::new("", vec![1u8; 32], vec![2u8; 32]);
    assert_eq!(
        validate_remote_media_thumbnail(bad).unwrap_err().message(),
        "payload error: remote media thumbnail direct path must not be empty"
    );
}

#[test]
fn rejects_invalid_remote_media_thumbnail_metadata() {
    let video_thumbnail = RemoteMediaThumbnail::new("", vec![1; 32], vec![2; 32]);
    assert!(validate_remote_media_thumbnail(video_thumbnail).is_err());
    let document_thumbnail = RemoteMediaThumbnail::new("/thumb/document", vec![1; 31], vec![2; 32]);
    assert!(validate_remote_media_thumbnail(document_thumbnail).is_err());
    let sized = RemoteMediaThumbnail::new("/thumb/document", vec![1; 32], vec![2; 32]).with_dimensions(0, 180);
    assert!(validate_remote_media_thumbnail(sized).is_err());
}

#[test]
fn message_context_collects_mentions_quote_and_forwarding() {
    let quote = QuotedMessage::new("1@g.us".to_owned(), "ABC".to_owned(), vec![1, 2])
        .with_participant("2@s.whatsapp.net".to_owned());
    assert_eq!(quote.participant.as_deref(), Some("2@s.whatsapp.net"));
    let context = MessageContext::new()
        .with_mention("3@s.whatsapp.net".to_owned())
        .with_mentions(vec!["4@s.whatsapp.net".to_owned(), "5@s.whatsapp.net".to_owned()])
        .with_quote(quote.clone())
        .forwarded(7)
        .with_expiration(86_400);
    assert_eq!(context.mentioned_jids, strings(&["3@s.whatsapp.net", "4@s.whatsapp.net", "5@s.whatsapp.net"]));
    assert_eq!(context.quoted, Some(quote));
    assert!(context.is_forwarded);
    assert_eq!(context.forwarding_score, Some(7));
    assert_eq!(context.expiration, Some(86_400));
    assert_eq!(MessageContext::default(), MessageContext::new());
}
