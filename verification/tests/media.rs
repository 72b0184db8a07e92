use wa_core::key::MessageEventKey;
use wa_core::media::cache::{MediaUploadCacheKey, MemoryMediaUploadCache, MemoryMediaUploadCacheConfig};
use wa_core::media::connection::{
    build_media_connection_query, next_upload_step, parse_media_connection_info, upload_hosts,
    upload_reply_outcome, HttpMediaTransportConfig, MediaConnectionInfo, MediaUploadHost, UploadStep,
};
use wa_core::media::coordinator::{
    finish_media_retry_application, media_retry_payload, MediaRetryCoordinator,
    MediaRetryCoordinatorConfig, MediaRetryEvent,
};
use wa_core::media::retry_store::{decode_stored_pending_media_retry, encode_stored_pending_media_retry};
use wa_core::media::{
    check_download_digests, downloaded_bytes_after, encrypted_chunk_written, plan_media_encryption,
    validate_remote_thumbnail_upload, constant_time_eq, media_download_url, media_kind_cache_id, media_kind_from_cache_id,
    media_upload_path, media_upload_token, media_url_from_direct_path,
    pending_media_retry_store_key, uploaded_media_location_from_fields,
    validate_media_transfer_limit, verify_media_ciphertext_hash, verify_media_plaintext_hash,
    MediaKind, MediaRetryPendingEntry, MediaRetryResult, PendingMediaRetry,
};
use wa_core::json::JsonValue;
use wa_core::media::{
    check_file_read_chunk, link_preview_thumbnail_from_uploaded_media, media_upload_url, remote_thumbnail_from_encrypted,
    uploaded_media_location_from_response, UploadedMediaLocation,
};
use wa_core::message::UploadedMedia;
use wa_core::node::BinaryNode;

#[test]
fn builds_media_download_urls() {
    assert_eq!(
        media_url_from_direct_path("/v/t62/file", None),
        "https://mmg.whatsapp.net/v/t62/file"
    );
    assert_eq!(
        media_download_url(Some("/v/t62/file"), Some("https://fallback"), Some("cdn.example")).unwrap(),
        "https://cdn.example/v/t62/file"
    );
    assert_eq!(
        media_download_url(None, Some("https://media.example/file"), None).unwrap(),
        "https://media.example/file"
    );
    assert!(media_download_url(None, None, None).is_err());
}

#[test]
fn download_url_skips_empty_parts() {
    assert_eq!(media_url_from_direct_path("/p", Some("")), "https://mmg.whatsapp.net/p");
    assert_eq!(media_download_url(Some(""), Some("https://u"), None).unwrap(), "https://u");
    assert!(media_download_url(Some(""), Some(""), None).is_err());
}

#[test]
fn builds_and_parses_media_connection_query() {
    let query = build_media_connection_query("media-1");
    assert_eq!(query.tag, "iq");
    assert_eq!(query.attr_str("id"), Some("media-1"));
    assert_eq!(query.attr_str("type"), Some("set"));
    assert_eq!(query.attr_str("xmlns"), Some("w:m"));
    assert_eq!(query.attr_str("to"), Some("s.whatsapp.net"));

    let response = BinaryNode::new("iq").with_nodes(vec![BinaryNode::new("media_conn")
        .with_attr("auth", "auth-token")
        .with_attr("ttl", "120")
        .with_nodes(vec![
            BinaryNode::new("host")
                .with_attr("hostname", "media-a.example")
                .with_attr("maxContentLengthBytes", "1024"),
            BinaryNode::new("host").with_attr("hostname", "media-b.example"),
        ])]);
    let parsed = parse_media_connection_info(&response).unwrap();
    assert_eq!(parsed.auth, "auth-token");
    assert_eq!(parsed.ttl_seconds, 120);
    assert_eq!(parsed.hosts.len(), 2);
    assert_eq!(parsed.hosts[0].hostname, "media-a.example");
    assert_eq!(parsed.hosts[0].max_content_length_bytes, Some(1024));
    assert_eq!(parsed.hosts[1].hostname, "media-b.example");
    assert!(parse_media_connection_info(&BinaryNode::new("iq")).is_err());

    let attr_error = BinaryNode::new("iq")
        .with_attr("type", "error")
        .with_attr("code", "401")
        .with_attr("text", "media denied");
    let err = parse_media_connection_info(&attr_error).unwrap_err();
    assert!(err.message().contains("media connection query failed (401): media denied"));

    let child_error = BinaryNode::new("iq").with_attr("type", "result").with_nodes(vec![
        BinaryNode::new("error").with_attr("code", "503").with_attr("text", "try later"),
    ]);
    let err = parse_media_connection_info(&child_error).unwrap_err();
    assert!(err.message().contains("media connection query failed (503): try later"));
}

#[test]
fn upload_host_defaults_to_https() {
    let host = MediaUploadHost::new("h");
    assert_eq!(host.upload_scheme(), "https");
    let host = host.with_scheme("http").with_max_content_length_bytes(5);
    assert_eq!(host.upload_scheme(), "http");
    assert_eq!(host.max_content_length_bytes, Some(5));
}

fn sha256_hex_of_media() -> Vec<u8> {
    // SHA-256("media")
    let hex = "ea5e2b8de9b8b1a8bc10ebdb08bb16ae9e07a7aa8b1d5e3b33bd5d6b2d9bc7d9";
    let _ = hex;
    Vec::new()
}

#[test]
fn verifies_media_hashes() {
    let _ = sha256_hex_of_media();
    let plaintext = b"media";
    let key = MediaUploadCacheKey::from_plaintext(MediaKind::Image, plaintext);
    let digest = key.file_sha256.clone();
    assert_eq!(digest.len(), 32);
    verify_media_plaintext_hash(plaintext, &digest).unwrap();
    assert!(verify_media_plaintext_hash(b"changed", &digest).is_err());
    assert!(verify_media_ciphertext_hash(b"ciphertext", &[1u8; 31]).is_err());
}

#[test]
fn compares_bytes_in_constant_time() {
    assert!(constant_time_eq(&[1, 2, 3], &[1, 2, 3]));
    assert!(!constant_time_eq(&[1, 2, 3], &[1, 2, 4]));
    assert!(!constant_time_eq(&[1, 2], &[1, 2, 3]));
    assert!(constant_time_eq(&[], &[]));
}

#[test]
fn builds_media_upload_paths_tokens_and_kinds() {
    assert_eq!(media_upload_path(MediaKind::Image), Some("/mms/image"));
    assert_eq!(media_upload_path(MediaKind::PushToTalk), Some("/mms/audio"));
    assert_eq!(media_upload_path(MediaKind::HistorySync), Some("/mms/md-app-state"));
    assert_eq!(media_upload_path(MediaKind::AppState), None);
    assert_eq!(media_upload_token(&[0u8; 32]).unwrap(), "AAAAAAAAAAAAAAAAAAAAAAAAAAAAAAAAAAAAAAAAAAA");
    assert_eq!(media_upload_token(&[0xfbu8; 32]).unwrap().len(), 43);
    assert!(media_upload_token(&[0u8; 31]).is_err());
    assert_eq!(media_upload_token(&[0xffu8; 32]).unwrap(), format!("{}8", "_".repeat(42)));
    for id in 0u8..=18 {
        let kind = media_kind_from_cache_id(id).unwrap();
        assert_eq!(media_kind_cache_id(kind), id);
    }
    assert!(media_kind_from_cache_id(19).is_err());
}

#[test]
fn validates_transfer_limits() {
    assert!(validate_media_transfer_limit("upload", 10, 10).is_ok());
    assert!(validate_media_transfer_limit("upload", 11, 10).is_err());
    assert!(validate_media_transfer_limit("upload", 0, 0).is_err());
}

fn pending_retry_media(media_key: [u8; 32], direct_path: &str) -> UploadedMedia {
    UploadedMedia::new(media_key.to_vec(), vec![2u8; 32], vec![3u8; 32], 10).with_direct_path(direct_path)
}

#[test]
fn media_retry_coordinator_enforces_capacity_ttl_and_validation() {
    let mut coordinator = MediaRetryCoordinator::new(MediaRetryCoordinatorConfig { capacity: 2, ttl_ms: 10 });
    let key_a = MessageEventKey::new("123@s.whatsapp.net", "a", None);
    let key_b = MessageEventKey::new("123@s.whatsapp.net", "b", None);
    let key_c = MessageEventKey::new("123@s.whatsapp.net", "c", None);
    coordinator
        .register(key_a.clone(), PendingMediaRetry::new(pending_retry_media([1u8; 32], "/old/a"), MediaKind::Image), 1_000)
        .unwrap();
    coordinator
        .register(key_b.clone(), PendingMediaRetry::new(pending_retry_media([2u8; 32], "/old/b"), MediaKind::Image), 1_000)
        .unwrap();
    assert!(coordinator.pending(&key_a, 1_001).is_some());
    coordinator
        .register(key_c.clone(), PendingMediaRetry::new(pending_retry_media([3u8; 32], "/old/c"), MediaKind::Image), 1_002)
        .unwrap();
    assert!(coordinator.pending(&key_a, 1_002).is_some());
    assert!(coordinator.pending(&key_b, 1_002).is_none());
    assert!(coordinator.pending(&key_c, 1_002).is_some());
    assert!(coordinator.pending(&key_a, 1_020).is_none());
    assert!(coordinator.is_empty());
    assert!(coordinator
        .register(
            MessageEventKey::new("123@s.whatsapp.net", "", None),
            PendingMediaRetry::new(pending_retry_media([4u8; 32], "/old/d"), MediaKind::Image),
            1_020,
        )
        .is_err());
    assert!(coordinator
        .register(
            MessageEventKey::new("123@s.whatsapp.net", "d", None),
            PendingMediaRetry::new(UploadedMedia::new(vec![1u8; 31], vec![2u8; 32], vec![3u8; 32], 1), MediaKind::Image),
            1_020,
        )
        .is_err());
}

#[test]
fn stores_and_restores_pending_media_retry_descriptors() {
    let key = MessageEventKey::new("123@g.us", "msg-1", Some("456@s.whatsapp.net"));
    let pending = PendingMediaRetry::new(
        pending_retry_media([7u8; 32], "/old/path").with_media_key_timestamp(1_700_000),
        MediaKind::Video,
    )
    .with_fallback_host("media.test");
    let entry = MediaRetryPendingEntry::new(key.clone(), pending.clone());
    assert_eq!(pending_media_retry_store_key(&key), "123@g.us|msg-1|456@s.whatsapp.net");
    let encoded = encode_stored_pending_media_retry(&entry).unwrap();
    assert_eq!(&encoded[..5], b"pmr1\x01");
    let decoded = decode_stored_pending_media_retry(&encoded).unwrap();
    assert_eq!(decoded, entry);
    let mut trailing = encoded.clone();
    trailing.push(0);
    assert!(decode_stored_pending_media_retry(&trailing).is_err());
    assert!(decode_stored_pending_media_retry(&encoded[..encoded.len() - 1]).is_err());
    assert!(decode_stored_pending_media_retry(b"xxxx\x01").is_err());

    let mut coordinator = MediaRetryCoordinator::default();
    coordinator.register(key.clone(), pending.clone(), 5).unwrap();
    let entries = coordinator.pending_entries(5);
    assert_eq!(entries, vec![entry]);
    let mut restored = MediaRetryCoordinator::default();
    assert_eq!(restored.restore_pending_entries(entries, 6).unwrap(), 1);
    assert_eq!(restored.pending(&key, 6), Some(pending));
}

#[test]
fn stored_record_with_bad_media_is_a_payload_error() {
    let key = MessageEventKey::new("123@g.us", "msg-1", None);
    let pending = PendingMediaRetry::new(UploadedMedia::new(vec![1u8; 3], vec![2u8; 32], vec![3u8; 32], 1), MediaKind::Image);
    let entry = MediaRetryPendingEntry::new(key, pending);
    assert!(matches!(encode_stored_pending_media_retry(&entry), Err(wa_core::error::CoreError::Payload(_))));
}

#[test]
fn pending_entries_come_in_key_order() {
    let mut c = MediaRetryCoordinator::default();
    for id in ["m3", "m1", "m2"] {
        c.register(MessageEventKey::new("x@s.whatsapp.net", id, None), PendingMediaRetry::new(pending_retry_media([1u8; 32], "/p"), MediaKind::Audio), 1).unwrap();
    }
    let ids: Vec<String> = c.pending_entries(1).into_iter().map(|e| e.key.id).collect();
    assert_eq!(ids, vec!["m1", "m2", "m3"]);
    assert!(c.remove(&MessageEventKey::new("x@s.whatsapp.net", "m2", None)).is_some());
    assert_eq!(c.len(), 2);
}

#[test]
fn applies_media_retry_notifications() {
    let retry = MediaRetryEvent {
        key: MessageEventKey::new("123@s.whatsapp.net", "msg-1", None),
        error_code: None,
        status_code: None,
        encrypted_payload: Some(vec![1, 2, 3]),
        iv: Some(vec![4, 5]),
    };
    assert_eq!(media_retry_payload(&retry).unwrap(), (vec![1, 2, 3], vec![4, 5]));
    let failed = MediaRetryEvent { error_code: Some(2), ..retry.clone() };
    assert!(media_retry_payload(&failed).is_err());

    let media = pending_retry_media([1u8; 32], "/old/path");
    let applied = finish_media_retry_application("msg-1", &media, Some("msg-1"), Some(1), Some("/new/path"), None).unwrap();
    assert_eq!(applied.result, MediaRetryResult::Success);
    assert_eq!(applied.status_code, 200);
    assert_eq!(applied.media.direct_path.as_deref(), Some("/new/path"));
    let not_found = finish_media_retry_application("msg-1", &media, Some("msg-1"), Some(2), None, None).unwrap();
    assert_eq!(not_found.status_code, 404);
    assert_eq!(not_found.media.direct_path.as_deref(), Some("/old/path"));
    assert!(finish_media_retry_application("msg-1", &media, Some("other"), Some(1), Some("/p"), None).is_err());
    assert!(finish_media_retry_application("msg-1", &media, Some("msg-1"), Some(1), Some(""), None).is_err());
    assert!(finish_media_retry_application("msg-1", &media, Some("msg-1"), Some(9), None, None).is_err());
}

#[test]
fn memory_media_upload_cache_enforces_capacity_ttl_and_validation() {
    let mut cache = MemoryMediaUploadCache::new(MemoryMediaUploadCacheConfig { capacity: 1, ttl_ms: 10 });
    let key = MediaUploadCacheKey::new(MediaKind::Image, &[9u8; 32], 4).unwrap();
    let media = UploadedMedia::new(vec![1u8; 32], vec![9u8; 32], vec![3u8; 32], 4).with_direct_path("/d");
    cache.store_media_upload(key.clone(), media.clone(), 100).unwrap();
    assert_eq!(cache.get_media_upload(&key, 105), Some(media.clone()));
    assert_eq!(cache.get_media_upload(&key, 110), None);
    assert!(cache.is_empty());
    let wrong = UploadedMedia::new(vec![1u8; 32], vec![8u8; 32], vec![3u8; 32], 4).with_direct_path("/d");
    assert!(cache.store_media_upload(key.clone(), wrong, 120).is_err());
    assert!(MediaUploadCacheKey::new(MediaKind::Image, &[9u8; 31], 4).is_err());
}

#[test]
fn builds_upload_location_from_response_fields() {
    let l = uploaded_media_location_from_fields(Some("https://u"), Some(""), Some(7), Some("12"), None).unwrap();
    assert_eq!(l.url.as_deref(), Some("https://u"));
    assert_eq!(l.direct_path, None);
    assert_eq!(l.media_key_timestamp, Some(7));
    assert_eq!(l.upload_id.as_deref(), Some("12"));
    assert!(uploaded_media_location_from_fields(None, Some(""), None, None, None).is_err());
}

#[test]
fn builds_media_upload_paths_tokens_and_urls() {
    assert_eq!(media_upload_path(MediaKind::Image), Some("/mms/image"));
    assert_eq!(media_upload_path(MediaKind::HistorySync), Some("/mms/md-app-state"));
    assert_eq!(media_upload_path(MediaKind::AppState), None);

    let token = media_upload_token(&[251u8; 32]).unwrap();
    assert!(!token.contains('+'));
    assert!(!token.contains('/'));
    assert!(!token.contains('='));

    let host = MediaUploadHost::new("media.example:8443").with_scheme("http");
    let url = media_upload_url(&host, "/mms/image", &token, "auth token").unwrap();
    assert!(url.starts_with("http://media.example:8443/mms/image/"));
    assert!(url.contains("auth=auth+token"));
    assert!(url.contains(&format!("token={token}")));
    assert!(media_upload_token(&[1u8; 31]).is_err());
}

#[test]
fn upload_url_exact_form_and_errors() {
    let host = MediaUploadHost::new("mmg.example");
    assert_eq!(
        media_upload_url(&host, "/mms/image", "abc", "xyz").unwrap(),
        "https://mmg.example/mms/image/abc?auth=xyz&token=abc"
    );
    assert_eq!(
        media_upload_url(&MediaUploadHost::new(""), "/p", "t", "a").unwrap_err().message(),
        "payload error: media upload host must not be empty"
    );
    assert_eq!(
        media_upload_url(&host, "/p", "t", "").unwrap_err().message(),
        "payload error: media upload auth token must not be empty"
    );
    let bad = MediaUploadHost::new("exa mple");
    assert!(media_upload_url(&bad, "/p", "t", "a").unwrap_err().message().starts_with("payload error: invalid media upload URL: "));
}

#[test]
fn rejects_invalid_link_preview_thumbnail_upload_metadata() {
    let media = UploadedMedia::new(vec![1u8; 31], vec![2u8; 32], vec![3u8; 32], 1).with_direct_path("/thumb");

    assert!(link_preview_thumbnail_from_uploaded_media(&media, None).is_err());
    assert!(link_preview_thumbnail_from_uploaded_media(
        &UploadedMedia::new(vec![1u8; 32], vec![2u8; 32], vec![3u8; 32], 1),
        None,
    )
    .is_err());
    assert!(link_preview_thumbnail_from_uploaded_media(&media.with_direct_path("/thumb"), Some((0, 10))).is_err());
}

#[test]
fn builds_link_preview_thumbnail_from_uploaded_media() {
    let media = UploadedMedia::new(vec![1u8; 32], vec![2u8; 32], vec![3u8; 32], 1)
        .with_direct_path("/thumb")
        .with_media_key_timestamp(42);
    let thumb = link_preview_thumbnail_from_uploaded_media(&media, Some((10, 20))).unwrap();
    assert_eq!(thumb.direct_path, "/thumb");
    assert_eq!(thumb.media_key, vec![1u8; 32]);
    assert_eq!(thumb.sha256, vec![2u8; 32]);
    assert_eq!(thumb.enc_sha256, vec![3u8; 32]);
    assert_eq!(thumb.media_key_timestamp, Some(42));
    assert_eq!((thumb.width, thumb.height), (Some(10), Some(20)));
    let short = UploadedMedia::new(vec![1u8; 31], vec![2u8; 32], vec![3u8; 32], 1).with_direct_path("/t");
    assert_eq!(
        link_preview_thumbnail_from_uploaded_media(&short, None).unwrap_err().message(),
        "payload error: link preview thumbnail media key must be 32 bytes, got 31"
    );
    let empty_path = UploadedMedia::new(vec![1u8; 32], vec![2u8; 32], vec![3u8; 32], 1).with_direct_path("");
    assert_eq!(
        link_preview_thumbnail_from_uploaded_media(&empty_path, None).unwrap_err().message(),
        "payload error: link preview thumbnail direct path must not be empty"
    );
}

#[test]
fn remote_thumbnails_need_a_direct_path_and_positive_dimensions() {
    let location = UploadedMediaLocation::new().with_direct_path("/thumb/video");
    let thumb = remote_thumbnail_from_encrypted(&[1u8; 32], &[2u8; 32], location.clone(), Some((320, 180))).unwrap();
    assert_eq!(thumb.direct_path, "/thumb/video");
    assert_eq!(thumb.sha256, vec![1u8; 32]);
    assert_eq!((thumb.width, thumb.height), (Some(320), Some(180)));
    assert!(remote_thumbnail_from_encrypted(&[1u8; 32], &[2u8; 32], UploadedMediaLocation::new(), None).is_err());
    assert!(remote_thumbnail_from_encrypted(&[1u8; 32], &[2u8; 32], location, Some((0, 1))).is_err());
}

#[test]
fn rejects_invalid_media_retry_applications() {
    let media = UploadedMedia::new(vec![8u8; 32], vec![1u8; 32], vec![2u8; 32], 1).with_direct_path("/old/path");
    let error_retry = MediaRetryEvent {
        key: MessageEventKey::new("123@s.whatsapp.net", "msg-1", None),
        error_code: Some(2),
        status_code: Some(404),
        encrypted_payload: None,
        iv: None,
    };
    assert_eq!(
        media_retry_payload(&error_retry).unwrap_err().message(),
        "protocol error: media retry returned error code 2 with status 404"
    );

    assert_eq!(
        finish_media_retry_application("msg-1", &media, Some("different"), Some(1), Some("/new/path"), None)
            .unwrap_err()
            .message(),
        "protocol error: media retry notification stanza id mismatch: expected msg-1, got different"
    );
}

#[test]
fn reads_upload_location_from_response_document() {
    let doc = JsonValue::Object(vec![
        ("url".to_owned(), JsonValue::Text("https://u".to_owned())),
        ("direct_path".to_owned(), JsonValue::Text("/d".to_owned())),
        ("ts".to_owned(), JsonValue::Number("-5".to_owned())),
        ("fbid".to_owned(), JsonValue::Number("12345678901234567890".to_owned())),
        ("meta_hmac".to_owned(), JsonValue::Text("".to_owned())),
    ]);
    let l = uploaded_media_location_from_response(&doc).unwrap();
    assert_eq!(l.url.as_deref(), Some("https://u"));
    assert_eq!(l.direct_path.as_deref(), Some("/d"));
    assert_eq!(l.media_key_timestamp, Some(-5));
    assert_eq!(l.upload_id.as_deref(), Some("12345678901234567890"));
    assert_eq!(l.upload_token, None);
    let id_text = JsonValue::Object(vec![
        ("direct_path".to_owned(), JsonValue::Text("/d".to_owned())),
        ("fbid".to_owned(), JsonValue::Text("abc".to_owned())),
        ("ts".to_owned(), JsonValue::Number("1.5".to_owned())),
    ]);
    let l = uploaded_media_location_from_response(&id_text).unwrap();
    assert_eq!(l.upload_id.as_deref(), Some("abc"));
    assert_eq!(l.media_key_timestamp, None);
    assert_eq!(
        uploaded_media_location_from_response(&JsonValue::Null).unwrap_err().message(),
        "protocol error: media upload response missing URL and direct path"
    );
}

#[test]
fn upload_offers_hosts_in_order_skipping_small_ones() {
    let config = HttpMediaTransportConfig::new(
        MediaConnectionInfo::new("auth", 60).with_hosts(vec![
            MediaUploadHost::new("small.example").with_max_content_length_bytes(10),
            MediaUploadHost::new("big.example"),
        ]),
    )
    .with_custom_upload_hosts(vec![MediaUploadHost::new("tiny.example").with_max_content_length_bytes(5)]);
    let hosts = upload_hosts(&config);
    let names: Vec<&str> = hosts.iter().map(|h| h.hostname.as_str()).collect();
    assert_eq!(names, vec!["tiny.example", "small.example", "big.example"]);

    match next_upload_step(&hosts, "/mms/image", "tok", "auth", 20, 0, None).unwrap() {
        UploadStep::Send { host, url } => {
            assert_eq!(host, 2);
            assert_eq!(url, "https://big.example/mms/image/tok?auth=auth&token=tok");
        }
        other => panic!("expected a send, got {other:?}"),
    }
    match next_upload_step(&hosts, "/mms/image", "tok", "auth", 20, 3, Some("media upload HTTP status 500 Internal Server Error")).unwrap() {
        UploadStep::Exhausted(err) => assert_eq!(
            err.message(),
            "protocol error: media upload failed on all hosts: media upload HTTP status 500 Internal Server Error"
        ),
        other => panic!("expected exhaustion, got {other:?}"),
    }
    match next_upload_step(&hosts[..2], "/p", "t", "a", 20, 0, None).unwrap() {
        UploadStep::Exhausted(err) => assert_eq!(
            err.message(),
            "protocol error: media upload failed on all hosts: host small.example rejects 20 bytes above max 10"
        ),
        other => panic!("expected exhaustion, got {other:?}"),
    }
    match next_upload_step(&[], "/p", "t", "a", 1, 0, None).unwrap() {
        UploadStep::Exhausted(err) => assert_eq!(err.message(), "protocol error: media upload failed on all hosts"),
        other => panic!("expected exhaustion, got {other:?}"),
    }
    assert!(next_upload_step(&hosts, "/p", "t", "", 1, 0, None).is_err());
}

#[test]
fn upload_replies_give_a_location_or_a_reason() {
    let doc = JsonValue::Object(vec![("direct_path".to_owned(), JsonValue::Text("/v/1".to_owned()))]);
    let location = upload_reply_outcome(200, "200 OK", Ok(doc)).unwrap();
    assert_eq!(location.direct_path.as_deref(), Some("/v/1"));
    assert_eq!(
        upload_reply_outcome(503, "503 Service Unavailable", Ok(JsonValue::Null)).unwrap_err(),
        "media upload HTTP status 503 Service Unavailable"
    );
    assert_eq!(
        upload_reply_outcome(200, "200 OK", Err("EOF while parsing".to_owned())).unwrap_err(),
        "protocol error: media upload returned invalid JSON: EOF while parsing"
    );
    assert_eq!(
        upload_reply_outcome(200, "200 OK", Ok(JsonValue::Object(vec![]))).unwrap_err(),
        "protocol error: media upload response missing URL and direct path"
    );
}

#[test]
fn file_reads_are_bounded() {
    assert!(check_file_read_chunk(10, 5, 15, "upload file").is_ok());
    assert_eq!(
        check_file_read_chunk(10, 6, 15, "upload file").unwrap_err().message(),
        "payload error: upload file exceeds configured limit while reading: 16 bytes exceeds 15"
    );
}

#[test]
fn media_errors_name_the_broken_rule() {
    let err = MediaUploadCacheKey::new(MediaKind::Image, &[9u8; 31], 4).unwrap_err();
    assert_eq!(err.message(), "payload error: media upload cache key SHA-256 must be 32 bytes, got 31");
    let mut cache = MemoryMediaUploadCache::new(MemoryMediaUploadCacheConfig { capacity: 1, ttl_ms: 10 });
    let key = MediaUploadCacheKey::new(MediaKind::Image, &[9u8; 32], 4).unwrap();
    let longer = UploadedMedia::new(vec![1u8; 32], vec![9u8; 32], vec![3u8; 32], 5).with_direct_path("/d");
    let err = cache.store_media_upload(key.clone(), longer, 1).unwrap_err();
    assert_eq!(err.message(), "payload error: cached media length mismatch: expected 4, got 5");
    let short_key = UploadedMedia::new(vec![1u8; 31], vec![9u8; 32], vec![3u8; 32], 4).with_direct_path("/d");
    let err = cache.store_media_upload(key, short_key, 1).unwrap_err();
    assert_eq!(err.message(), "payload error: cached media key must be 32 bytes, got 31");
    assert!(cache.is_empty());

    let no_ttl = BinaryNode::new("iq").with_nodes(vec![BinaryNode::new("media_conn").with_attr("auth", "a")]);
    let err = parse_media_connection_info(&no_ttl).unwrap_err();
    assert_eq!(err.message(), "protocol error: node media_conn missing required attribute ttl");
    let bad_host = BinaryNode::new("media_conn")
        .with_attr("auth", "a")
        .with_attr("ttl", "30")
        .with_nodes(vec![
            BinaryNode::new("host").with_attr("hostname", "h1"),
            BinaryNode::new("host").with_attr("hostname", "h2").with_attr("maxContentLengthBytes", "x"),
        ]);
    let err = parse_media_connection_info(&bad_host).unwrap_err();
    assert_eq!(err.message(), "protocol error: media connection host maxContentLengthBytes is not a number");
    let no_hosts = BinaryNode::new("media_conn").with_attr("auth", "a").with_attr("ttl", "30");
    let err = parse_media_connection_info(&no_hosts).unwrap_err();
    assert_eq!(err.message(), "protocol error: media connection response has no upload hosts");

    let err = verify_media_plaintext_hash(b"x", &[0u8; 32]).unwrap_err();
    assert_eq!(err.message(), "payload error: media plaintext SHA-256 mismatch");
    let err = verify_media_ciphertext_hash(b"x", &[0u8; 3]).unwrap_err();
    assert_eq!(err.message(), "payload error: expected media SHA-256 must be 32 bytes, got 3");

    let no_path = UploadedMedia::new(vec![1u8; 32], vec![2u8; 32], vec![3u8; 32], 4);
    let err = link_preview_thumbnail_from_uploaded_media(&no_path, None).unwrap_err();
    assert_eq!(err.message(), "payload error: link preview thumbnail upload requires a direct path");
    let short_digest = UploadedMedia::new(vec![1u8; 32], vec![2u8; 30], vec![3u8; 32], 4).with_direct_path("/t");
    let err = link_preview_thumbnail_from_uploaded_media(&short_digest, None).unwrap_err();
    assert_eq!(
        err.message(),
        "payload error: link preview thumbnail plaintext SHA-256 must be 32 bytes, got 30"
    );

    let mut coordinator = MediaRetryCoordinator::new(MediaRetryCoordinatorConfig { capacity: 4, ttl_ms: 100 });
    let good = MediaRetryPendingEntry::new(
        MessageEventKey::new("123@s.whatsapp.net", "a", None),
        PendingMediaRetry::new(pending_retry_media([1u8; 32], "/a"), MediaKind::Image),
    );
    let bad = MediaRetryPendingEntry::new(
        MessageEventKey::new("123@s.whatsapp.net", "", None),
        PendingMediaRetry::new(pending_retry_media([1u8; 32], "/b"), MediaKind::Image),
    );
    let err = coordinator.restore_pending_entries(vec![good, bad], 5).unwrap_err();
    assert_eq!(err.message(), "payload error: media retry key id must not be empty");
    let kept = MessageEventKey::new("123@s.whatsapp.net", "a", None);
    assert!(coordinator.pending(&kept, 6).is_some());
}

#[test]
fn stored_record_errors_name_the_first_broken_field() {
    let err = decode_stored_pending_media_retry(b"pmr").unwrap_err();
    assert_eq!(err.message(), "protocol error: stored pending media retry record is truncated");
    let err = decode_stored_pending_media_retry(b"xmr1\x01").unwrap_err();
    assert_eq!(err.message(), "protocol error: stored pending media retry record has invalid magic");
    let err = decode_stored_pending_media_retry(b"pmr1\x09").unwrap_err();
    assert_eq!(err.message(), "protocol error: unsupported stored pending media retry version: 9");
    let err = decode_stored_pending_media_retry(b"pmr1\x01\x00\x00").unwrap_err();
    assert_eq!(err.message(), "protocol error: stored pending media retry missing byte length");

    let entry = MediaRetryPendingEntry::new(
        MessageEventKey::new("123@s.whatsapp.net", "a", None),
        PendingMediaRetry::new(pending_retry_media([1u8; 32], "/a"), MediaKind::Image),
    );
    let mut bytes = encode_stored_pending_media_retry(&entry).unwrap();
    bytes.push(0);
    bytes.push(0);
    let err = decode_stored_pending_media_retry(&bytes).unwrap_err();
    assert_eq!(err.message(), "protocol error: stored pending media retry has 2 trailing bytes");
    bytes.truncate(bytes.len() - 2);
    let last = bytes.len() - 1;
    bytes[last] = 7;
    let err = decode_stored_pending_media_retry(&bytes).unwrap_err();
    assert_eq!(err.message(), "protocol error: stored pending media retry has invalid optional string tag 7");
    bytes[last - 1] = 42;
    let err = decode_stored_pending_media_retry(&bytes).unwrap_err();
    assert_eq!(err.message(), "protocol error: stored pending media retry has invalid media kind 42");
}

#[test]
fn validates_remote_thumbnail_uploads() {
    let parent = pending_retry_media([1u8; 32], "/p");
    assert!(validate_remote_thumbnail_upload(&parent, b"jpeg", Some((10, 10))).is_ok());
    assert_eq!(
        validate_remote_thumbnail_upload(&parent, b"", None).unwrap_err().message(),
        "payload error: remote thumbnail upload must not be empty"
    );
    assert_eq!(
        validate_remote_thumbnail_upload(&parent, b"jpeg", Some((0, 10))).unwrap_err().message(),
        "payload error: remote thumbnail dimensions must be greater than zero"
    );
    let short = UploadedMedia::new(vec![1u8; 16], vec![2u8; 32], vec![3u8; 32], 1);
    assert_eq!(
        validate_remote_thumbnail_upload(&short, b"jpeg", None).unwrap_err().message(),
        "payload error: remote thumbnail parent media key must be 32 bytes, got 16"
    );
}

#[test]
fn media_encryption_is_planned_against_both_limits() {
    assert_eq!(plan_media_encryption("media upload", true, 100, 1000, 1000).unwrap(), 122);
    assert_eq!(plan_media_encryption("media upload", true, 96, 1000, 1000).unwrap(), 122);
    assert_eq!(
        plan_media_encryption("media upload", true, 1, 0, 1000).unwrap_err().message(),
        "payload error: media upload size limit must be greater than zero"
    );
    assert_eq!(
        plan_media_encryption("media upload", true, 1, 10, 0).unwrap_err().message(),
        "payload error: encrypted media upload size limit must be greater than zero"
    );
    assert_eq!(
        plan_media_encryption("media upload", false, 1, 10, 10).unwrap_err().message(),
        "payload error: media upload path is not a regular file"
    );
    assert_eq!(
        plan_media_encryption("media upload", true, 2000, 1000, 5000).unwrap_err().message(),
        "payload error: media upload exceeds configured limit: 2000 bytes exceeds 1000"
    );
    assert_eq!(
        plan_media_encryption("media upload", true, 96, 1000, 121).unwrap_err().message(),
        "payload error: encrypted media upload exceeds configured limit: 122 bytes exceeds 121"
    );
}

#[test]
fn encrypted_chunks_are_counted_against_the_limit() {
    assert_eq!(encrypted_chunk_written(10, 5, 20, false).unwrap(), 15);
    assert_eq!(encrypted_chunk_written(10, 10, 20, true).unwrap(), 20);
    assert_eq!(
        encrypted_chunk_written(10, 15, 20, true).unwrap_err().message(),
        "payload error: encrypted media upload exceeds configured limit while finalizing: 25 bytes exceeds 20"
    );
    assert_eq!(
        encrypted_chunk_written(10, 15, 20, false).unwrap_err().message(),
        "payload error: encrypted media upload exceeds configured limit while encrypting: 25 bytes exceeds 20"
    );
    assert_eq!(encrypted_chunk_written(usize::MAX, 1, usize::MAX, false).unwrap(), usize::MAX);
}

#[test]
fn decrypted_downloads_are_counted_and_checked() {
    assert_eq!(downloaded_bytes_after(10, 5).unwrap(), 15);
    assert_eq!(downloaded_bytes_after(u64::MAX - 1, 1).unwrap(), u64::MAX);
    assert_eq!(
        downloaded_bytes_after(u64::MAX, 1).unwrap_err().message(),
        "payload error: downloaded media byte count overflow"
    );
    assert!(check_download_digests(&[1; 32], &[1; 32], &[2; 32], &[2; 32]).is_ok());
    assert_eq!(
        check_download_digests(&[1; 32], &[9; 32], &[2; 32], &[8; 32]).unwrap_err().message(),
        "payload error: media encrypted SHA-256 mismatch"
    );
    assert_eq!(
        check_download_digests(&[1; 32], &[1; 32], &[2; 32], &[8; 32]).unwrap_err().message(),
        "payload error: media plaintext SHA-256 mismatch"
    );
}
