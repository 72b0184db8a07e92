use std::io::Write;

use wa_core::history::{
    history_call_log_id, history_call_log_single_participant, history_default_disappearing_mode,
    history_recent_sticker_id, uploaded_media_from_history_sync_notification, bytes_to_hex, collect_conversation_mappings, collect_direct_mappings, ensure_capacity,
    inflate_zlib_bounded, is_lid_jid, is_pn_jid, non_empty_prefixed, non_negative_i64_to_u64,
    normalize_history_account_lid, push_mapping, validate_declared_history_size,
    HistoryLidPnMapping, HistorySyncDecodeConfig, HistorySyncKind, HistorySyncProcessConfig,
    DEFAULT_MAX_HISTORY_INFLATED_BYTES,
};
use wa_core::history::processing::{
    add_global_settings_fields, history_account_settings_event, process_history_sync, HistoryAccount,
    HistoryAutoDownload, HistoryAvatarSettings, HistoryConversation, HistoryGlobalSettings, HistoryPushname, HistoryRecord,
    HistoryNotificationSettings, HistorySyncPayload, HistoryWallpaper,
};
use wa_core::history::call_log::{
    history_call_log_event, history_call_log_participants_json, push_history_call_log_events,
    HistoryCallLogRecord, HistoryCallParticipant,
};
use wa_core::history::add_on::{
    history_message_add_on_update, history_message_event_key, HistoryAddOnContext, HistoryAddOnMessage,
    HistoryEventResponseMessage, HistoryLegacyAddOn, HistoryMessageAddOn, HistoryPinContent, HistoryPollUpdateContent,
    HistoryPollVote,
};
use wa_core::history::web_message::{
    HistoryEventResponse, HistoryPollUpdate, HistoryReaction, HistorySyncMsg, HistoryWebMessage,
};
use wa_core::history::past_participants::{
    history_past_participants_event, HistoryPastParticipant, HistoryPastParticipants,
};
use wa_core::history::stickers::{history_recent_sticker_event, HistoryStickerMetadata};
use wa_core::key::MessageKey;
use wa_core::message::UploadedMedia;

fn zlib(bytes: &[u8]) -> Vec<u8> {
    let mut encoder = flate2::write::ZlibEncoder::new(Vec::new(), flate2::Compression::default());
    encoder.write_all(bytes).unwrap();
    encoder.finish().unwrap()
}

fn pair(lid: &str, pn: &str) -> HistoryLidPnMapping {
    HistoryLidPnMapping { lid_jid: lid.to_owned(), pn_jid: pn.to_owned() }
}

#[test]
fn history_configs_have_documented_defaults() {
    assert_eq!(HistorySyncDecodeConfig::default().max_inflated_bytes, 128 * 1024 * 1024);
    let config = HistorySyncProcessConfig::default();
    assert_eq!(config.max_chats, 50_000);
    assert_eq!(config.max_contacts, 100_000);
    assert_eq!(config.max_messages, 100_000);
    assert!(!config.is_latest);
    assert!(config.latest(true).is_latest);
}

#[test]
fn capacity_and_sign_checks() {
    assert!(ensure_capacity(0, 1, "history chats").is_ok());
    assert_eq!(
        ensure_capacity(2, 2, "history chats").unwrap_err().message(),
        "payload error: history chats exceeds configured item limit: 2 items reaches 2"
    );
    assert_eq!(non_negative_i64_to_u64(5, "t").unwrap(), 5);
    assert_eq!(
        non_negative_i64_to_u64(-1, "timestamp").unwrap_err().message(),
        "protocol error: timestamp must be non-negative"
    );
}

#[test]
fn records_each_lid_mapping_once() {
    let mut mappings = Vec::new();
    push_mapping(&mut mappings, "1@lid", "1@s.whatsapp.net").unwrap();
    push_mapping(&mut mappings, "1@lid", "1@s.whatsapp.net").unwrap();
    push_mapping(&mut mappings, "2@lid", "2@s.whatsapp.net").unwrap();
    assert_eq!(mappings, vec![pair("1@lid", "1@s.whatsapp.net"), pair("2@lid", "2@s.whatsapp.net")]);
    assert_eq!(
        push_mapping(&mut mappings, "", "3@s.whatsapp.net").unwrap_err().message(),
        "protocol error: history LID mapping must not be empty"
    );
    assert_eq!(
        push_mapping(&mut mappings, "3@lid", "bad").unwrap_err().message(),
        "protocol error: invalid history PN mapping: bad"
    );
    assert_eq!(mappings.len(), 2);
}

#[test]
fn classifies_lid_and_phone_number_jids() {
    assert!(is_lid_jid("123@lid"));
    assert!(is_lid_jid("123:4@hosted.lid"));
    assert!(!is_lid_jid("123@s.whatsapp.net"));
    assert!(is_pn_jid("123@s.whatsapp.net"));
    assert!(is_pn_jid("123@c.us"));
    assert!(!is_pn_jid("123@g.us"));
    assert!(!is_pn_jid("nonsense"));
}

#[test]
fn conversations_reveal_mappings_both_ways() {
    let mut mappings = Vec::new();
    collect_conversation_mappings(&mut mappings, "9@lid", Some("9@s.whatsapp.net"), None, None).unwrap();
    collect_conversation_mappings(&mut mappings, "8@s.whatsapp.net", None, Some("8@lid"), None).unwrap();
    collect_conversation_mappings(&mut mappings, "7@s.whatsapp.net", None, None, Some("7@lid")).unwrap();
    collect_conversation_mappings(&mut mappings, "6@g.us", Some("6@s.whatsapp.net"), None, None).unwrap();
    assert_eq!(
        mappings,
        vec![
            pair("9@lid", "9@s.whatsapp.net"),
            pair("8@lid", "8@s.whatsapp.net"),
            pair("7@lid", "7@s.whatsapp.net"),
        ]
    );
    assert!(collect_conversation_mappings(&mut mappings, "5@s.whatsapp.net", None, Some("bad"), None).is_err());
}

#[test]
fn direct_mappings_skip_incomplete_entries() {
    let mut mappings = vec![pair("1@lid", "1@s.whatsapp.net")];
    let entries = vec![
        (Some("1@s.whatsapp.net".to_owned()), Some("1@lid".to_owned())),
        (Some("2@s.whatsapp.net".to_owned()), None),
        (Some("3@s.whatsapp.net".to_owned()), Some("3@lid".to_owned())),
    ];
    collect_direct_mappings(&mut mappings, &entries).unwrap();
    assert_eq!(mappings, vec![pair("1@lid", "1@s.whatsapp.net"), pair("3@lid", "3@s.whatsapp.net")]);
    let bad = vec![(Some("x".to_owned()), Some("4@lid".to_owned()))];
    assert!(collect_direct_mappings(&mut mappings, &bad).is_err());
}

#[test]
fn normalizes_history_account_lids() {
    assert_eq!(normalize_history_account_lid("  ").unwrap(), None);
    assert_eq!(normalize_history_account_lid("123").unwrap().as_deref(), Some("123@lid"));
    assert_eq!(normalize_history_account_lid(" 123:7@lid ").unwrap().as_deref(), Some("123@lid"));
    assert!(normalize_history_account_lid("123@s.whatsapp.net").is_err());
    assert!(normalize_history_account_lid("bad:7").is_err());
}

#[test]
fn inflates_within_the_limit() {
    let plain = b"history sync payload ".repeat(1000);
    let compressed = zlib(&plain);
    assert_eq!(inflate_zlib_bounded(&compressed, DEFAULT_MAX_HISTORY_INFLATED_BYTES).unwrap(), plain);
    assert_eq!(inflate_zlib_bounded(&compressed, plain.len()).unwrap(), plain);
    let err = inflate_zlib_bounded(&compressed, 1).unwrap_err().message();
    assert!(err.starts_with("payload error: inflated history sync exceeds configured limit: "), "{err}");
    assert_eq!(
        inflate_zlib_bounded(&compressed, 0).unwrap_err().message(),
        "payload error: history sync inflate limit must be greater than zero"
    );
    assert!(inflate_zlib_bounded(b"not zlib", 100).unwrap_err().message().starts_with("payload error: failed to inflate history sync: "));
}

#[test]
fn declared_history_size_is_checked_before_download() {
    let media = UploadedMedia::new(vec![1; 32], vec![2; 32], vec![3; 32], 100);
    assert!(validate_declared_history_size(&media, 100).is_ok());
    assert_eq!(
        validate_declared_history_size(&media, 99).unwrap_err().message(),
        "payload error: history sync declared size exceeds configured limit: 100 bytes exceeds 99"
    );
    assert!(validate_declared_history_size(&media, 0).is_err());
}

#[test]
fn hex_and_prefixed_texts() {
    assert_eq!(bytes_to_hex(&[0x00, 0xab, 0x10]), "00ab10");
    assert_eq!(non_empty_prefixed("sticker", Some("  abc ")).as_deref(), Some("sticker:abc"));
    assert_eq!(non_empty_prefixed("sticker", Some("   ")), None);
    assert_eq!(non_empty_prefixed("sticker", None), None);
}

#[test]
fn history_sync_kind_reads_wire_numbers() {
    assert_eq!(HistorySyncKind::from_wire_number(0).unwrap(), HistorySyncKind::InitialBootstrap);
    assert_eq!(HistorySyncKind::from_wire_number(5).unwrap(), HistorySyncKind::NonBlockingData);
    assert_eq!(HistorySyncKind::from_wire_number(6).unwrap(), HistorySyncKind::OnDemand);
    assert_eq!(HistorySyncKind::PushName.wire_number(), 4);
    assert_eq!(HistorySyncKind::InitialBootstrap.as_str_name(), "INITIAL_BOOTSTRAP");
    assert_eq!(HistorySyncKind::NonBlockingData.as_str_name(), "NON_BLOCKING_DATA");
    let err = HistorySyncKind::from_wire_number(7).unwrap_err();
    assert_eq!(err.message(), "protocol error: unknown history sync type: 7");
    let err = HistorySyncKind::from_wire_number(-3).unwrap_err();
    assert_eq!(err.message(), "protocol error: unknown history sync type: -3");
}

#[test]
fn history_sync_kind_round_trips_every_number() {
    for n in 0..7 {
        let kind = HistorySyncKind::from_wire_number(n).unwrap();
        assert_eq!(kind.wire_number(), n);
    }
}

#[test]
fn history_sync_sections_follow_kind() {
    let bootstrap = HistorySyncKind::InitialBootstrap.sections();
    assert!(bootstrap.conversations && bootstrap.status_messages);
    assert!(!bootstrap.pushnames && !bootstrap.accounts);
    let status = HistorySyncKind::InitialStatusV3.sections();
    assert!(!status.conversations && status.status_messages && !status.pushnames);
    let names = HistorySyncKind::PushName.sections();
    assert!(!names.conversations && !names.status_messages && names.pushnames && !names.accounts);
    let data = HistorySyncKind::NonBlockingData.sections();
    assert!(!data.conversations && data.status_messages && data.pushnames && data.accounts);
}

#[test]
fn history_errors_name_the_broken_rule() {
    let mut mappings = Vec::new();
    let err = push_mapping(&mut mappings, "", "1@s.whatsapp.net").unwrap_err();
    assert_eq!(err.message(), "protocol error: history LID mapping must not be empty");
    let err = push_mapping(&mut mappings, "1@lid", "nope").unwrap_err();
    assert_eq!(err.message(), "protocol error: invalid history PN mapping: nope");
    assert!(mappings.is_empty());

    let err = normalize_history_account_lid(" 123@s.whatsapp.net ").unwrap_err();
    assert_eq!(err.message(), "protocol error: history account LID must use LID domain: 123@s.whatsapp.net");
    let err = normalize_history_account_lid("bad:7").unwrap_err();
    assert_eq!(err.message(), "protocol error: invalid history account bare LID user: bad:7");

    let entries = vec![
        (Some("1@s.whatsapp.net".to_owned()), Some("1@lid".to_owned())),
        (Some("2@s.whatsapp.net".to_owned()), None),
        (Some("3@s.whatsapp.net".to_owned()), Some("x:y@lid".to_owned())),
    ];
    let err = collect_direct_mappings(&mut mappings, &entries).unwrap_err();
    assert_eq!(err.message(), "protocol error: invalid history LID mapping: x:y@lid");
    assert_eq!(mappings, vec![pair("1@lid", "1@s.whatsapp.net")]);

    let err = inflate_zlib_bounded(&zlib(&[7u8; 100]), 10).unwrap_err();
    assert_eq!(err.message(), "payload error: inflated history sync exceeds configured limit: 100 bytes exceeds 10");
    let err = inflate_zlib_bounded(b"not zlib", 10).unwrap_err();
    assert!(err.message().starts_with("payload error: failed to inflate history sync: "));
}




#[test]
fn history_recent_sticker_ids_prefer_digests() {
    assert_eq!(
        history_recent_sticker_id(Some(&[1, 2, 3]), Some(&[9]), Some("/p"), None, None).as_deref(),
        Some("file_sha256:010203")
    );
    assert_eq!(
        history_recent_sticker_id(Some(&[]), Some(&[0xab]), None, None, None).as_deref(),
        Some("file_enc_sha256:ab")
    );
    assert_eq!(
        history_recent_sticker_id(None, None, Some("  "), Some(" h1 "), Some("u")).as_deref(),
        Some("image_hash:h1")
    );
    assert_eq!(history_recent_sticker_id(None, None, None, None, Some("")), None);
}

#[test]
fn history_call_log_ids_fall_back_to_position_and_start() {
    assert_eq!(history_call_log_id(Some("c1"), Some("s1"), None, Some(5), 0), "c1");
    assert_eq!(history_call_log_id(Some(""), Some("s1"), Some("t"), None, 0), "s1");
    assert_eq!(history_call_log_id(None, Some(""), Some("tok"), None, 0), "tok");
    assert_eq!(history_call_log_id(None, None, None, Some(1_700), 3), "history-call-3-1700");
    assert_eq!(history_call_log_id(None, None, None, None, 0), "history-call-0-0");
    assert_eq!(history_call_log_id(None, None, None, Some(-4), 1), "history-call-1--4");
}

#[test]
fn history_call_log_single_participant_needs_exactly_one() {
    let one = vec![None, Some(String::new()), Some("1@s.whatsapp.net".to_owned())];
    assert_eq!(history_call_log_single_participant(&one).unwrap().as_deref(), Some("1@s.whatsapp.net"));
    let two = vec![Some("1@s.whatsapp.net".to_owned()), Some("2@s.whatsapp.net".to_owned())];
    assert_eq!(history_call_log_single_participant(&two).unwrap(), None);
    assert_eq!(history_call_log_single_participant(&[]).unwrap(), None);
    let bad = vec![Some("bad".to_owned()), Some("2@s.whatsapp.net".to_owned())];
    assert_eq!(
        history_call_log_single_participant(&bad).unwrap_err().message(),
        "protocol error: invalid history call log participant JID: bad"
    );
}

#[test]
fn uploaded_media_from_history_sync_notification_checks_fields() {
    let media = uploaded_media_from_history_sync_notification(
        Some(&[1u8; 32]),
        Some(&[2u8; 32]),
        Some(&[3u8; 32]),
        Some(77),
        Some("/v/history"),
    )
    .unwrap();
    assert_eq!(media.direct_path.as_deref(), Some("/v/history"));
    assert_eq!(media.media_key, vec![1u8; 32]);
    assert_eq!(media.file_length, 77);
    assert_eq!(media.url, None);
    let err = uploaded_media_from_history_sync_notification(
        Some(&[1u8; 32]),
        Some(&[2u8; 32]),
        Some(&[3u8; 32]),
        Some(77),
        Some(""),
    )
    .unwrap_err();
    assert_eq!(err.message(), "payload error: history sync notification missing direct path");
    let err = uploaded_media_from_history_sync_notification(None, Some(&[2u8; 32]), None, None, None)
        .unwrap_err();
    assert_eq!(err.message(), "payload error: history sync notification missing media key");
    let err = uploaded_media_from_history_sync_notification(
        Some(&[1u8; 31]),
        Some(&[2u8; 32]),
        Some(&[3u8; 32]),
        Some(77),
        Some("/p"),
    )
    .unwrap_err();
    assert_eq!(err.message(), "payload error: history sync notification media key must be 32 bytes");
    let err = uploaded_media_from_history_sync_notification(
        Some(&[1u8; 32]),
        Some(&[2u8; 32]),
        Some(&[3u8; 32]),
        None,
        Some("/p"),
    )
    .unwrap_err();
    assert_eq!(err.message(), "payload error: history sync notification missing file length");
}

fn payload(sync_type: i32) -> HistorySyncPayload {
    HistorySyncPayload {
        sync_type,
        progress: None,
        chunk_order: None,
        global_settings: None,
        thread_ds_timeframe_offset: None,
        companion_meta_nonce: None,
        thread_id_user_secret: None,
        shareable_chat_identifier_encryption_key: None,
        ai_wait_list_state: None,
        phone_number_to_lid_mappings: Vec::new(),
        conversations: Vec::new(),
        pushnames: Vec::new(),
        accounts: Vec::new(),
        call_log_records: Vec::new(),
        status_v3_messages: Vec::new(),
        past_participants: Vec::new(),
        recent_stickers: Vec::new(),
    }
}

fn settings(duration: Option<i32>, timestamp: Option<i64>) -> HistoryGlobalSettings {
    HistoryGlobalSettings {
        media_visibility: None,
        light_theme_wallpaper: None,
        dark_theme_wallpaper: None,
        auto_download_wifi: None,
        auto_download_cellular: None,
        auto_download_roaming: None,
        show_individual_notifications_preview: None,
        show_group_notifications_preview: None,
        disappearing_mode_duration: duration,
        disappearing_mode_timestamp: timestamp,
        avatar_user_settings: None,
        font_size: None,
        security_notifications: None,
        auto_unarchive_chats: None,
        video_quality_mode: None,
        photo_quality_mode: None,
        individual_notification_settings: None,
        group_notification_settings: None,
        chat_db_lid_migration_timestamp: None,
    }
}

fn field<'a>(record: &'a HistoryRecord, key: &str) -> Option<&'a str> {
    record.fields.iter().find(|(k, _)| k == key).map(|(_, v)| v.as_str())
}

fn conversation(id: &str) -> HistoryConversation {
    HistoryConversation {
        id: id.to_owned(),
        name: None,
        display_name: None,
        username: None,
        pn_jid: None,
        lid_jid: None,
        account_lid: None,
        last_msg_timestamp: None,
        conversation_timestamp: None,
        unread_count: None,
        unread_mention_count: None,
        ephemeral_expiration: None,
        pinned: None,
        mute_end_time: None,
        archived: None,
        read_only: None,
        marked_as_unread: None,
        end_of_history_transfer: None,
        messages: Vec::new(),
    }
}

#[test]
fn processes_push_name_history_sync() {
    let mut history = payload(4);
    history.pushnames.push(HistoryPushname {
        id: Some("123@s.whatsapp.net".to_owned()),
        pushname: Some("Alice".to_owned()),
    });
    let processed = process_history_sync(&history, HistorySyncProcessConfig::default()).unwrap();
    assert_eq!(processed.contacts.len(), 1);
    assert_eq!(processed.contacts[0].id, "123@s.whatsapp.net");
    assert_eq!(field(&processed.contacts[0], "notify"), Some("Alice"));
}

#[test]
fn processes_non_blocking_history_pushnames_statuses_and_lid_mappings() {
    let mut history = payload(5);
    history.pushnames.push(HistoryPushname {
        id: Some("123@s.whatsapp.net".to_owned()),
        pushname: Some("Alice".to_owned()),
    });
    history.phone_number_to_lid_mappings.push((Some("123@s.whatsapp.net".to_owned()), Some("123@lid".to_owned())));
    let mut status = web_message(MessageKey {
        remote_jid: Some("status@broadcast".to_owned()),
        from_me: Some(false),
        id: Some("status-1".to_owned()),
        participant: Some("123@s.whatsapp.net".to_owned()),
    });
    status.message_timestamp = Some(1_700_000_020);
    status.push_name = Some("Alice".to_owned());
    history.status_v3_messages.push(status);
    let mut global = settings(Some(86_400), Some(1_700_000_060));
    global.media_visibility = Some(2);
    global.light_theme_wallpaper = Some(HistoryWallpaper { filename: Some("light.jpg".to_owned()), opacity: Some(80) });
    global.dark_theme_wallpaper = Some(HistoryWallpaper { filename: Some("dark.jpg".to_owned()), opacity: Some(70) });
    global.auto_download_wifi = Some(HistoryAutoDownload { images: Some(true), audio: Some(false), video: Some(true), documents: Some(false) });
    global.auto_download_cellular = Some(HistoryAutoDownload { images: Some(false), audio: Some(true), video: Some(false), documents: Some(true) });
    global.auto_download_roaming = Some(HistoryAutoDownload { images: Some(false), audio: Some(false), video: Some(false), documents: Some(false) });
    global.show_individual_notifications_preview = Some(true);
    global.show_group_notifications_preview = Some(false);
    global.avatar_user_settings = Some(HistoryAvatarSettings { fbid: Some("fbid-1".to_owned()), password: Some("secret".to_owned()) });
    global.font_size = Some(2);
    global.security_notifications = Some(true);
    global.auto_unarchive_chats = Some(false);
    global.video_quality_mode = Some(1);
    global.photo_quality_mode = Some(2);
    global.individual_notification_settings = Some(HistoryNotificationSettings {
        message_vibrate: Some("short".to_owned()),
        message_popup: Some("always".to_owned()),
        message_light: Some("white".to_owned()),
        low_priority_notifications: Some(true),
        reactions_muted: Some(false),
        call_vibrate: Some("long".to_owned()),
    });
    global.group_notification_settings = Some(HistoryNotificationSettings {
        message_vibrate: Some("default".to_owned()),
        message_popup: Some("never".to_owned()),
        message_light: Some("green".to_owned()),
        low_priority_notifications: Some(false),
        reactions_muted: Some(true),
        call_vibrate: Some("short".to_owned()),
    });
    global.chat_db_lid_migration_timestamp = Some(1_700_000_080);
    history.global_settings = Some(global);
    history.thread_id_user_secret = Some(vec![8, 9, 10, 11]);
    history.thread_ds_timeframe_offset = Some(15);
    history.ai_wait_list_state = Some(1);
    history.companion_meta_nonce = Some("nonce-1".to_owned());
    history.shareable_chat_identifier_encryption_key = Some(vec![12, 13, 14]);
    let mut call = call_record();
    call.call_result = Some(4);
    call.silence_reason = Some(2);
    call.duration = Some(42);
    call.start_time = Some(1_700_000_030);
    call.is_incoming = Some(true);
    call.is_video = Some(true);
    call.call_id = Some("call-1".to_owned());
    call.call_creator_jid = Some("123@s.whatsapp.net".to_owned());
    call.group_jid = Some("456@g.us".to_owned());
    call.participants = vec![
        participant(Some("123@s.whatsapp.net"), Some(4)),
        participant(Some("789@s.whatsapp.net"), Some(0)),
    ];
    call.call_type = Some(0);
    history.call_log_records.push(call);
    history.recent_stickers.push(HistoryStickerMetadata {
        url: Some("https://mmg.whatsapp.net/sticker".to_owned()),
        file_sha256: Some(vec![1, 2, 3]),
        file_enc_sha256: Some(vec![4, 5, 6]),
        media_key: Some(vec![7; 32]),
        mimetype: Some("image/webp".to_owned()),
        height: Some(512),
        width: Some(512),
        direct_path: Some("/v/t62.15575/sticker".to_owned()),
        file_length: Some(1234),
        weight_text: Some(0.75f32.to_string()),
        last_sticker_sent_ts: Some(1_700_000_070),
        is_lottie: Some(false),
        image_hash: Some("hash-1".to_owned()),
        is_avatar_sticker: Some(true),
    });
    history.past_participants.push(HistoryPastParticipants {
        group_jid: Some("456@g.us".to_owned()),
        past_participants: vec![
            HistoryPastParticipant {
                user_jid: Some("123@s.whatsapp.net".to_owned()),
                leave_reason: Some(0),
                leave_ts: Some(1_700_000_040),
            },
            HistoryPastParticipant {
                user_jid: Some("789@s.whatsapp.net".to_owned()),
                leave_reason: Some(1),
                leave_ts: Some(1_700_000_050),
            },
        ],
    });
    history.accounts.push(HistoryAccount {
        lid: Some("456".to_owned()),
        username: Some("alice_handle".to_owned()),
        country_code: Some("1".to_owned()),
        is_username_deleted: Some(false),
    });
    history.accounts.push(HistoryAccount {
        lid: Some("789@lid".to_owned()),
        username: Some("old_handle".to_owned()),
        country_code: Some("55".to_owned()),
        is_username_deleted: Some(true),
    });
    let processed = process_history_sync(&history, HistorySyncProcessConfig::default()).unwrap();
    assert_eq!(processed.sync_type, HistorySyncKind::NonBlockingData);
    assert!(!processed.is_latest);
    assert!(process_history_sync(&history, HistorySyncProcessConfig::default().latest(true)).unwrap().is_latest);
    assert_eq!(processed.lid_pn_mappings, vec![pair("123@lid", "123@s.whatsapp.net")]);
    assert_eq!(processed.default_disappearing_mode, Some((86_400, Some(1_700_000_060))));
    let contacts = &processed.contacts;
    assert_eq!(contacts.len(), 3);
    assert_eq!(contacts[0].id, "123@s.whatsapp.net");
    assert_eq!(field(&contacts[0], "notify"), Some("Alice"));
    assert_eq!(contacts[1].id, "456@lid");
    assert_eq!(field(&contacts[1], "source"), Some("history_account"));
    assert_eq!(field(&contacts[1], "lid_jid"), Some("456@lid"));
    assert_eq!(field(&contacts[1], "username"), Some("alice_handle"));
    assert_eq!(field(&contacts[1], "country_code"), Some("1"));
    assert_eq!(field(&contacts[1], "is_username_deleted"), Some("false"));
    assert_eq!(contacts[2].id, "789@lid");
    assert_eq!(field(&contacts[2], "username"), Some(""));
    assert_eq!(field(&contacts[2], "username_deleted"), Some("true"));
    assert_eq!(field(&contacts[2], "is_username_deleted"), Some("true"));
    assert_eq!(field(&contacts[2], "country_code"), Some("55"));
    assert!(processed.chats.is_empty());
    assert_eq!(processed.messages.len(), 1);
    assert_eq!(processed.messages[0].key.remote_jid, "status@broadcast");
    assert_eq!(processed.messages[0].key.participant.as_deref(), Some("123@s.whatsapp.net"));
    assert_eq!(processed.messages[0].key.id, "status-1");
    assert_eq!(processed.messages[0].timestamp, Some(1_700_000_020));
    assert_eq!(field_in(&processed.messages[0].fields, "history_sync_type"), Some("NON_BLOCKING_DATA"));
    assert_eq!(field_in(&processed.messages[0].fields, "push_name"), Some("Alice"));

    let settings = processed.account_settings.as_ref().unwrap();
    assert_eq!(settings.id, "history_sync");
    let expected = [
        ("source", "history_sync"),
        ("media_visibility", "ON"),
        ("light_theme_wallpaper_filename", "light.jpg"),
        ("light_theme_wallpaper_opacity", "80"),
        ("dark_theme_wallpaper_filename", "dark.jpg"),
        ("dark_theme_wallpaper_opacity", "70"),
        ("auto_download_wifi_images", "true"),
        ("auto_download_wifi_audio", "false"),
        ("auto_download_cellular_documents", "true"),
        ("auto_download_roaming_video", "false"),
        ("show_individual_notifications_preview", "true"),
        ("show_group_notifications_preview", "false"),
        ("disappearing_mode_duration", "86400"),
        ("disappearing_mode_timestamp", "1700000060"),
        ("avatar_fbid", "fbid-1"),
        ("avatar_password_present", "true"),
        ("font_size", "2"),
        ("security_notifications", "true"),
        ("auto_unarchive_chats", "false"),
        ("video_quality_mode", "1"),
        ("photo_quality_mode", "2"),
        ("individual_notification_message_vibrate", "short"),
        ("individual_notification_message_popup", "always"),
        ("individual_notification_message_light", "white"),
        ("individual_notification_low_priority_notifications", "true"),
        ("individual_notification_reactions_muted", "false"),
        ("individual_notification_call_vibrate", "long"),
        ("group_notification_message_vibrate", "default"),
        ("group_notification_message_popup", "never"),
        ("group_notification_message_light", "green"),
        ("group_notification_low_priority_notifications", "false"),
        ("group_notification_reactions_muted", "true"),
        ("group_notification_call_vibrate", "short"),
        ("chat_db_lid_migration_timestamp", "1700000080"),
        ("thread_id_user_secret_present", "true"),
        ("thread_id_user_secret_len", "4"),
        ("thread_ds_timeframe_offset", "15"),
        ("ai_wait_list_state", "AI_AVAILABLE"),
        ("companion_meta_nonce", "nonce-1"),
        ("shareable_chat_identifier_encryption_key_present", "true"),
        ("shareable_chat_identifier_encryption_key_len", "3"),
    ];
    for (key, value) in expected {
        assert_eq!(field(settings, key), Some(value), "{key}");
    }
    assert_eq!(field(settings, "avatar_password"), None);

    assert_eq!(processed.calls.len(), 1);
    let call = &processed.calls[0];
    assert_eq!(call.id, "call-1");
    assert_eq!(call.from, "456@g.us");
    assert_eq!(call.event_type, "history_log");
    assert_eq!(call.call_id.as_deref(), Some("call-1"));
    assert_eq!(call.timestamp, Some(1_700_000_030));
    assert_eq!(field_in(&call.fields, "source"), Some("history_call_log"));
    assert_eq!(field_in(&call.fields, "call_result"), Some("MISSED"));
    assert_eq!(field_in(&call.fields, "call_type"), Some("REGULAR"));
    assert_eq!(field_in(&call.fields, "silence_reason"), Some("PRIVACY"));
    assert_eq!(field_in(&call.fields, "duration"), Some("42"));
    assert_eq!(field_in(&call.fields, "is_incoming"), Some("true"));
    assert_eq!(field_in(&call.fields, "is_video"), Some("true"));
    assert_eq!(field_in(&call.fields, "call_creator_jid"), Some("123@s.whatsapp.net"));
    assert_eq!(field_in(&call.fields, "group_jid"), Some("456@g.us"));
    assert_eq!(field_in(&call.fields, "participants_count"), Some("2"));
    let participants: serde_json::Value =
        serde_json::from_str(field_in(&call.fields, "participants").unwrap()).unwrap();
    assert_eq!(participants[0]["jid"], "123@s.whatsapp.net");
    assert_eq!(participants[0]["callResult"], "MISSED");
    assert_eq!(participants[1]["jid"], "789@s.whatsapp.net");
    assert_eq!(participants[1]["callResult"], "CONNECTED");

    assert_eq!(processed.recent_stickers.len(), 1);
    let sticker = &processed.recent_stickers[0];
    assert_eq!(sticker.id, "file_sha256:010203");
    assert_eq!(sticker.file_sha256.as_deref(), Some(&[1, 2, 3][..]));
    assert_eq!(sticker.file_enc_sha256.as_deref(), Some(&[4, 5, 6][..]));
    assert_eq!(sticker.media_key.as_deref(), Some(&[7; 32][..]));
    for (key, value) in [
        ("source", "history_recent_sticker"),
        ("file_sha256_hex", "010203"),
        ("file_enc_sha256_hex", "040506"),
        ("mimetype", "image/webp"),
        ("height", "512"),
        ("width", "512"),
        ("direct_path", "/v/t62.15575/sticker"),
        ("file_length", "1234"),
        ("weight", "0.75"),
        ("last_sticker_sent_ts", "1700000070"),
        ("image_hash", "hash-1"),
        ("is_lottie", "false"),
        ("is_avatar_sticker", "true"),
    ] {
        assert_eq!(field_in(&sticker.fields, key), Some(value), "{key}");
    }

    assert_eq!(processed.groups.len(), 1);
    let group = &processed.groups[0];
    assert_eq!(group.id, "456@g.us");
    assert_eq!(field(group, "source"), Some("history_past_participants"));
    assert_eq!(field(group, "past_participants_count"), Some("2"));
    assert_eq!(field(group, "participants_leave"), Some("123@s.whatsapp.net"));
    assert_eq!(field(group, "participants_leave_count"), Some("1"));
    assert_eq!(field(group, "participants_leave_timestamps"), Some("123@s.whatsapp.net=1700000040"));
    assert_eq!(field(group, "participants_remove"), Some("789@s.whatsapp.net"));
    assert_eq!(field(group, "participants_remove_count"), Some("1"));
    assert_eq!(field(group, "participants_remove_timestamps"), Some("789@s.whatsapp.net=1700000050"));
    assert_eq!(
        field(group, "past_participant_reasons"),
        Some("123@s.whatsapp.net=LEFT,789@s.whatsapp.net=REMOVED")
    );
    assert_eq!(
        field(group, "past_participant_timestamps"),
        Some("123@s.whatsapp.net=1700000040,789@s.whatsapp.net=1700000050")
    );
}

#[test]
fn processes_conversations_into_chats_contacts_and_mappings() {
    let mut history = payload(0);
    let mut chat = conversation("111@lid");
    chat.display_name = Some("Bob".to_owned());
    chat.name = Some("Robert".to_owned());
    chat.pn_jid = Some("111@s.whatsapp.net".to_owned());
    chat.unread_count = Some(3);
    chat.archived = Some(false);
    history.conversations.push(chat);
    history.conversations.push(conversation("222@s.whatsapp.net"));
    history.pushnames.push(HistoryPushname { id: None, pushname: None });
    let processed = process_history_sync(&history, HistorySyncProcessConfig::default()).unwrap();
    assert_eq!(processed.sync_type, HistorySyncKind::InitialBootstrap);
    assert_eq!(processed.chats.len(), 2);
    assert_eq!(
        processed.chats[0].fields,
        vec![
            ("name".to_owned(), "Robert".to_owned()),
            ("display_name".to_owned(), "Bob".to_owned()),
            ("pn_jid".to_owned(), "111@s.whatsapp.net".to_owned()),
            ("unread_count".to_owned(), "3".to_owned()),
            ("archived".to_owned(), "false".to_owned()),
        ]
    );
    assert_eq!(field(&processed.contacts[0], "name"), Some("Bob"));
    assert_eq!(processed.contacts[1].fields, Vec::new());
    assert_eq!(processed.lid_pn_mappings, vec![pair("111@lid", "111@s.whatsapp.net")]);

    let mut bad = payload(2);
    bad.conversations.push(conversation("not a jid"));
    assert_eq!(
        process_history_sync(&bad, HistorySyncProcessConfig::default()).unwrap_err().message(),
        "protocol error: invalid history chat JID: not a jid"
    );
    let unknown = payload(9);
    assert_eq!(
        process_history_sync(&unknown, HistorySyncProcessConfig::default()).unwrap_err().message(),
        "protocol error: unknown history sync type: 9"
    );
}

#[test]
fn rejects_invalid_history_global_settings_disappearing_mode() {
    let mut history = payload(5);
    history.global_settings = Some(settings(Some(-1), None));
    assert!(process_history_sync(&history, HistorySyncProcessConfig::default()).is_err());
    let mut history = payload(5);
    history.global_settings = Some(settings(Some(86_400), Some(-1)));
    assert!(process_history_sync(&history, HistorySyncProcessConfig::default()).is_err());
    assert_eq!(
        history_default_disappearing_mode(Some(-1), None).unwrap_err().message(),
        "protocol error: history global settings disappearing duration is negative"
    );
}

#[test]
fn rejects_invalid_history_account_lids() {
    let mut history = payload(5);
    history.accounts.push(HistoryAccount {
        lid: Some("123@s.whatsapp.net".to_owned()),
        username: None,
        country_code: None,
        is_username_deleted: None,
    });
    assert!(process_history_sync(&history, HistorySyncProcessConfig::default()).is_err());
    let mut history = payload(5);
    history.accounts.push(HistoryAccount {
        lid: Some("bad:7".to_owned()),
        username: None,
        country_code: None,
        is_username_deleted: None,
    });
    assert!(process_history_sync(&history, HistorySyncProcessConfig::default()).is_err());
}

#[test]
fn enforces_history_sync_decode_and_process_limits() {
    let compressed = zlib(b"history payload");
    assert!(inflate_zlib_bounded(&compressed, 1).is_err());
    let mut history = payload(0);
    history.conversations.push(conversation("123@s.whatsapp.net"));
    let config = HistorySyncProcessConfig { max_chats: 0, ..HistorySyncProcessConfig::default() };
    let err = process_history_sync(&history, config).unwrap_err();
    assert_eq!(err.message(), "payload error: history chats exceeds configured item limit: 0 items reaches 0");
}

#[test]
fn history_account_settings_record_names_global_settings() {
    let mut history = payload(5);
    assert_eq!(history_account_settings_event(&history), None);
    let mut global = settings(Some(86_400), None);
    global.media_visibility = Some(2);
    global.light_theme_wallpaper = Some(HistoryWallpaper { filename: Some("sky.jpg".to_owned()), opacity: Some(40) });
    global.avatar_user_settings = Some(HistoryAvatarSettings { fbid: Some("77".to_owned()), password: Some("pw".to_owned()) });
    global.font_size = Some(-2);
    assert_eq!(
        add_global_settings_fields(&global),
        vec![
            ("media_visibility".to_owned(), "ON".to_owned()),
            ("light_theme_wallpaper_filename".to_owned(), "sky.jpg".to_owned()),
            ("light_theme_wallpaper_opacity".to_owned(), "40".to_owned()),
            ("disappearing_mode_duration".to_owned(), "86400".to_owned()),
            ("avatar_fbid".to_owned(), "77".to_owned()),
            ("avatar_password_present".to_owned(), "true".to_owned()),
            ("font_size".to_owned(), "-2".to_owned()),
        ]
    );
    global.media_visibility = Some(7);
    assert_eq!(add_global_settings_fields(&global)[0].1, "UNKNOWN_7");
    history.global_settings = Some(settings(None, None));
    history.thread_id_user_secret = Some(vec![1, 2, 3]);
    history.ai_wait_list_state = Some(1);
    let record = history_account_settings_event(&history).unwrap();
    assert_eq!(record.id, "history_sync");
    assert_eq!(
        record.fields,
        vec![
            ("source".to_owned(), "history_sync".to_owned()),
            ("thread_id_user_secret_present".to_owned(), "true".to_owned()),
            ("thread_id_user_secret_len".to_owned(), "3".to_owned()),
            ("ai_wait_list_state".to_owned(), "AI_AVAILABLE".to_owned()),
        ]
    );
    let processed = process_history_sync(&history, HistorySyncProcessConfig::default()).unwrap();
    assert_eq!(processed.account_settings, Some(record));
}

fn call_record() -> HistoryCallLogRecord {
    HistoryCallLogRecord {
        call_result: None,
        is_dnd_mode: None,
        silence_reason: None,
        duration: None,
        start_time: None,
        is_incoming: None,
        is_video: None,
        is_call_link: None,
        call_link_token: None,
        scheduled_call_id: None,
        call_id: None,
        call_creator_jid: None,
        group_jid: None,
        participants: Vec::new(),
        call_type: None,
    }
}

fn field_in<'a>(fields: &'a [(String, String)], key: &str) -> Option<&'a str> {
    fields.iter().find(|(k, _)| k == key).map(|(_, v)| v.as_str())
}

fn participant(jid: Option<&str>, result: Option<i32>) -> HistoryCallParticipant {
    HistoryCallParticipant { user_jid: jid.map(str::to_owned), call_result: result }
}

#[test]
fn history_call_log_events_fall_back_and_refuse() {
    let mut record = call_record();
    record.participants = vec![participant(None, None), participant(Some("55@s.whatsapp.net"), None)];
    record.start_time = Some(9);
    let call = history_call_log_event(&record, 3).unwrap();
    assert_eq!(call.id, "history-call-3-9");
    assert_eq!(call.from, "55@s.whatsapp.net");
    assert_eq!(call.participant.as_deref(), Some("55@s.whatsapp.net"));
    assert_eq!(call.call_id, None);
    assert_eq!(
        call.fields,
        vec![
            ("source".to_owned(), "history_call_log".to_owned()),
            ("start_time".to_owned(), "9".to_owned()),
            ("participants_count".to_owned(), "2".to_owned()),
            ("participants".to_owned(), "[{},{\"jid\":\"55@s.whatsapp.net\"}]".to_owned()),
        ]
    );

    assert_eq!(
        history_call_log_event(&call_record(), 0).unwrap_err().message(),
        "protocol error: history call log missing group, creator, or participant JID"
    );
    let mut bad_group = call_record();
    bad_group.group_jid = Some("nonsense".to_owned());
    assert_eq!(
        history_call_log_event(&bad_group, 0).unwrap_err().message(),
        "protocol error: invalid history call log group JID: nonsense"
    );
    let mut negative = call_record();
    negative.call_creator_jid = Some("1@s.whatsapp.net".to_owned());
    negative.duration = Some(-5);
    assert_eq!(
        history_call_log_event(&negative, 0).unwrap_err().message(),
        "protocol error: history call log duration must be non-negative"
    );
    negative.duration = None;
    negative.start_time = Some(-1);
    assert_eq!(
        history_call_log_event(&negative, 0).unwrap_err().message(),
        "protocol error: history call log start time must be non-negative"
    );
    let mut later_bad = call_record();
    later_bad.group_jid = Some("456@g.us".to_owned());
    later_bad.participants = vec![participant(Some("1@s.whatsapp.net"), None), participant(Some("bad jid"), None)];
    assert_eq!(
        history_call_log_event(&later_bad, 0).unwrap_err().message(),
        "protocol error: invalid history call log participant JID: bad jid"
    );

    let mut calls = Vec::new();
    let records = vec![record.clone(), record];
    assert_eq!(
        push_history_call_log_events(&mut calls, &records, 1).unwrap_err().message(),
        "payload error: history call logs exceeds configured item limit: 1 items reaches 1"
    );
    assert_eq!(calls.len(), 1);
}

#[test]
fn history_call_log_participants_json_quotes_text() {
    let ps = vec![participant(Some("1@s.whatsapp.net"), Some(99)), participant(Some(""), Some(3))];
    assert_eq!(
        history_call_log_participants_json(&ps).unwrap(),
        "[{\"callResult\":\"UNKNOWN\",\"jid\":\"1@s.whatsapp.net\"},{\"callResult\":\"ACCEPTEDELSEWHERE\"}]"
    );
    assert_eq!(history_call_log_participants_json(&[]).unwrap(), "[]");
}

fn proto_key(id: &str) -> MessageKey {
    MessageKey {
        remote_jid: Some("123@g.us".to_owned()),
        from_me: Some(false),
        id: Some(id.to_owned()),
        participant: Some("456@s.whatsapp.net".to_owned()),
    }
}

fn add_on(add_on_type: i32, sender_timestamp_ms: i64) -> HistoryMessageAddOn {
    HistoryMessageAddOn {
        message_add_on_type: Some(add_on_type),
        message_add_on: None,
        sender_timestamp_ms: Some(sender_timestamp_ms),
        status: None,
        add_on_context_info: None,
        message_add_on_key: None,
        legacy_message: None,
        server_timestamp_ms: None,
    }
}

fn add_on_message() -> HistoryAddOnMessage {
    HistoryAddOnMessage {
        reaction_present: false,
        poll_present: false,
        event_present: false,
        media_present: false,
        poll_update: None,
        enc_event_response: None,
        reaction: None,
        pin: None,
    }
}

#[test]
fn processes_history_web_message_message_add_ons() {
    let poll_key = proto_key("poll-creation-1");
    let event_key = proto_key("event-creation-1");
    let pin_key = proto_key("pin-target-1");

    let mut poll = add_on(3, 1_700_000_014_123);
    poll.server_timestamp_ms = Some(1_700_000_014_456);
    poll.add_on_context_info = Some(HistoryAddOnContext { duration_in_secs: Some(3600), expiry_type: Some(1) });
    poll.message_add_on_key = Some(poll_key.clone());
    poll.legacy_message = Some(HistoryLegacyAddOn {
        poll_vote_selected_options: Some(vec![b"option-a".to_vec(), b"option-b".to_vec()]),
        event_response_message: None,
    });
    let mut wrapper = web_message(MessageKey {
        remote_jid: Some("123@g.us".to_owned()),
        from_me: Some(false),
        id: Some("history-wrapper-2".to_owned()),
        participant: Some("789@s.whatsapp.net".to_owned()),
    });
    wrapper.message_timestamp = Some(1_700_000_013);
    wrapper.message_add_ons.push(poll.clone());

    let mut event = add_on(2, 1_700_000_015_123);
    event.message_add_on_key = Some(event_key.clone());
    event.legacy_message = Some(HistoryLegacyAddOn {
        poll_vote_selected_options: None,
        event_response_message: Some(HistoryEventResponseMessage {
            response: Some(3),
            extra_guest_count: Some(1),
            timestamp_ms: Some(1_700_000_015_456),
        }),
    });
    wrapper.message_add_ons.push(event.clone());

    let mut wrapped_poll = add_on(3, 1_700_000_016_123);
    let mut content = add_on_message();
    content.poll_present = true;
    content.poll_update = Some(HistoryPollUpdateContent {
        poll_creation_message_key: Some(poll_key.clone()),
        vote: Some(HistoryPollVote {
            enc_payload: Some(b"wrapped-vote".to_vec()),
            enc_iv: Some(b"wrapped-iv".to_vec()),
        }),
        metadata_present: true,
    });
    wrapped_poll.message_add_on = Some(content);
    wrapper.message_add_ons.push(wrapped_poll.clone());

    let mut wrapped_pin = add_on(4, 1_700_000_017_123);
    let mut content = add_on_message();
    content.pin = Some(HistoryPinContent { key: Some(pin_key.clone()), pin_type: Some(1) });
    wrapped_pin.message_add_on = Some(content);
    wrapper.message_add_ons.push(wrapped_pin.clone());
    let mut history = payload(0);
    let mut chat = conversation("123@g.us");
    chat.messages.push(HistorySyncMsg { msg_order_id: Some(10), message: Some(wrapper) });
    history.conversations.push(chat);
    let processed = process_history_sync(&history, HistorySyncProcessConfig::default()).unwrap();
    assert_eq!(processed.messages.len(), 1);
    assert_eq!(processed.messages[0].key.id, "history-wrapper-2");
    assert_eq!(processed.message_updates.len(), 4);
    let poll_update = &processed.message_updates[0];
    let event_update = &processed.message_updates[1];
    let wrapped_poll_update = &processed.message_updates[2];
    let wrapped_pin_update = &processed.message_updates[3];
    assert_eq!(history_message_add_on_update(&poll).unwrap(), *poll_update);
    assert_eq!(history_message_add_on_update(&event).unwrap(), *event_update);
    assert_eq!(history_message_add_on_update(&wrapped_poll).unwrap(), *wrapped_poll_update);
    assert_eq!(history_message_add_on_update(&wrapped_pin).unwrap(), *wrapped_pin_update);
    assert_eq!(poll_update.key, history_message_event_key(&poll_key).unwrap());
    assert_eq!(poll_update.timestamp, Some(1_700_000_014_123));
    assert_eq!(field_in(&poll_update.fields, "source"), Some("history_message_add_on"));
    assert_eq!(field_in(&poll_update.fields, "add_on_type"), Some("poll_update"));
    assert_eq!(field_in(&poll_update.fields, "poll_update"), Some("true"));
    assert_eq!(field_in(&poll_update.fields, "selected_options_count"), Some("2"));
    assert_eq!(field_in(&poll_update.fields, "legacy_message_present"), Some("true"));
    assert_eq!(field_in(&poll_update.fields, "add_on_duration_secs"), Some("3600"));
    assert_eq!(field_in(&poll_update.fields, "add_on_expiry_type"), Some("1"));
    assert_eq!(field_in(&poll_update.fields, "server_timestamp_ms"), Some("1700000014456"));
    assert_eq!(event_update.key, history_message_event_key(&event_key).unwrap());
    assert_eq!(event_update.timestamp, Some(1_700_000_015_123));
    assert_eq!(field_in(&event_update.fields, "source"), Some("history_message_add_on"));
    assert_eq!(field_in(&event_update.fields, "add_on_type"), Some("event_response"));
    assert_eq!(field_in(&event_update.fields, "event_response"), Some("true"));
    assert_eq!(field_in(&event_update.fields, "response"), Some("maybe"));
    assert_eq!(field_in(&event_update.fields, "extra_guest_count"), Some("1"));
    assert_eq!(field_in(&event_update.fields, "response_timestamp_ms"), Some("1700000015456"));
    assert_eq!(wrapped_poll_update.key, history_message_event_key(&poll_key).unwrap());
    assert_eq!(wrapped_poll_update.timestamp, Some(1_700_000_016_123));
    assert_eq!(field_in(&wrapped_poll_update.fields, "source"), Some("history_message_add_on"));
    assert_eq!(field_in(&wrapped_poll_update.fields, "add_on_stanza_type"), Some("poll"));
    assert_eq!(field_in(&wrapped_poll_update.fields, "poll_update"), Some("true"));
    assert_eq!(field_in(&wrapped_poll_update.fields, "vote_encrypted"), Some("true"));
    assert_eq!(field_in(&wrapped_poll_update.fields, "encrypted_vote_payload_bytes"), Some("12"));
    assert_eq!(field_in(&wrapped_poll_update.fields, "encrypted_vote_iv_bytes"), Some("10"));
    assert_eq!(wrapped_pin_update.key, history_message_event_key(&pin_key).unwrap());
    assert_eq!(wrapped_pin_update.timestamp, Some(1_700_000_017_123));
    assert_eq!(field_in(&wrapped_pin_update.fields, "source"), Some("history_message_add_on"));
    assert_eq!(field_in(&wrapped_pin_update.fields, "add_on_type"), Some("pin_in_chat"));
    assert_eq!(field_in(&wrapped_pin_update.fields, "add_on_stanza_type"), Some("text"));
    assert_eq!(field_in(&wrapped_pin_update.fields, "pin_action"), Some("pin"));
}

#[test]
fn history_message_add_ons_keep_one_flag_and_refuse_bad_targets() {
    let poll_key = proto_key("poll-creation-1");
    let mut both = add_on(3, 5);
    let mut content = add_on_message();
    content.poll_update = Some(HistoryPollUpdateContent {
        poll_creation_message_key: Some(poll_key.clone()),
        vote: None,
        metadata_present: false,
    });
    both.message_add_on = Some(content);
    both.legacy_message = Some(HistoryLegacyAddOn { poll_vote_selected_options: Some(vec![]), event_response_message: None });
    let update = history_message_add_on_update(&both).unwrap();
    assert_eq!(
        update.fields,
        vec![
            ("source".to_owned(), "history_message_add_on".to_owned()),
            ("add_on_type".to_owned(), "poll_update".to_owned()),
            ("add_on_message_present".to_owned(), "true".to_owned()),
            ("legacy_message_present".to_owned(), "true".to_owned()),
            ("add_on_stanza_type".to_owned(), "text".to_owned()),
            ("poll_update".to_owned(), "true".to_owned()),
            ("vote_encrypted".to_owned(), "false".to_owned()),
            ("metadata_present".to_owned(), "false".to_owned()),
            ("selected_options_count".to_owned(), "0".to_owned()),
        ]
    );

    assert_eq!(
        history_message_add_on_update(&add_on(0, 1)).unwrap_err().message(),
        "protocol error: history message add-on missing target key"
    );
    let mut negative = add_on(1, -1);
    negative.message_add_on_key = Some(poll_key.clone());
    assert_eq!(
        history_message_add_on_update(&negative).unwrap_err().message(),
        "protocol error: history message add-on sender timestamp must be non-negative"
    );
    let mut no_id = poll_key.clone();
    no_id.id = Some(String::new());
    assert_eq!(
        history_message_event_key(&no_id).unwrap_err().message(),
        "protocol error: history update target missing id"
    );
    let mut bad_participant = poll_key.clone();
    bad_participant.participant = Some("not a jid".to_owned());
    assert_eq!(
        history_message_event_key(&bad_participant).unwrap_err().message(),
        "protocol error: invalid history update target participant JID: not a jid"
    );
    let mut no_participant = poll_key;
    no_participant.participant = Some(String::new());
    assert_eq!(history_message_event_key(&no_participant).unwrap().participant, None);
}

fn web_message(key: MessageKey) -> HistoryWebMessage {
    HistoryWebMessage {
        key: Some(key),
        encoded: vec![1, 2, 3],
        message_timestamp: None,
        push_name: None,
        status: None,
        message_stub_type: None,
        reactions: Vec::new(),
        poll_updates: Vec::new(),
        event_responses: Vec::new(),
        message_add_ons: Vec::new(),
    }
}

#[test]
fn processes_history_web_message_poll_and_event_updates() {
    let poll_key = proto_key("poll-creation-1");
    let event_key = proto_key("event-creation-1");
    let mut wrapper = web_message(MessageKey {
        remote_jid: Some("123@g.us".to_owned()),
        from_me: Some(false),
        id: Some("history-wrapper-1".to_owned()),
        participant: Some("789@s.whatsapp.net".to_owned()),
    });
    wrapper.message_timestamp = Some(1_700_000_010);
    wrapper.poll_updates.push(HistoryPollUpdate {
        poll_update_message_key: Some(poll_key.clone()),
        vote_selected_options: Some(vec![b"option-a".to_vec()]),
        sender_timestamp_ms: Some(1_700_000_011_123),
        server_timestamp_ms: Some(1_700_000_011_456),
        unread: Some(true),
    });
    wrapper.event_responses.push(HistoryEventResponse {
        event_response_message_key: Some(event_key.clone()),
        timestamp_ms: Some(1_700_000_012_123),
        event_response_message: Some(HistoryEventResponseMessage {
            response: Some(1),
            timestamp_ms: Some(1_700_000_012_456),
            extra_guest_count: Some(2),
        }),
        unread: Some(false),
    });
    let mut history = payload(0);
    let mut chat = conversation("123@g.us");
    chat.messages.push(HistorySyncMsg { msg_order_id: Some(8), message: Some(wrapper) });
    history.conversations.push(chat);
    let processed = process_history_sync(&history, HistorySyncProcessConfig::default()).unwrap();
    assert_eq!(processed.messages.len(), 1);
    assert_eq!(processed.messages[0].key.id, "history-wrapper-1");
    assert_eq!(processed.messages[0].payload, vec![1, 2, 3]);
    assert_eq!(field_in(&processed.messages[0].fields, "history_order_id"), Some("8"));
    assert_eq!(field_in(&processed.messages[0].fields, "history_sync_type"), Some("INITIAL_BOOTSTRAP"));
    assert_eq!(processed.message_updates.len(), 2);

    let poll_update = &processed.message_updates[0];
    assert_eq!(poll_update.key, history_message_event_key(&poll_key).unwrap());
    assert_eq!(poll_update.timestamp, Some(1_700_000_011_123));
    assert_eq!(field_in(&poll_update.fields, "source"), Some("history_poll_update"));
    assert_eq!(field_in(&poll_update.fields, "poll_update"), Some("true"));
    assert_eq!(field_in(&poll_update.fields, "vote_present"), Some("true"));
    assert_eq!(field_in(&poll_update.fields, "selected_options_count"), Some("1"));
    assert_eq!(field_in(&poll_update.fields, "unread"), Some("true"));
    assert_eq!(field_in(&poll_update.fields, "server_timestamp_ms"), Some("1700000011456"));

    let event_update = &processed.message_updates[1];
    assert_eq!(event_update.key, history_message_event_key(&event_key).unwrap());
    assert_eq!(event_update.timestamp, Some(1_700_000_012_123));
    assert_eq!(field_in(&event_update.fields, "source"), Some("history_event_response"));
    assert_eq!(field_in(&event_update.fields, "event_response"), Some("true"));
    assert_eq!(field_in(&event_update.fields, "response_present"), Some("true"));
    assert_eq!(field_in(&event_update.fields, "response"), Some("going"));
    assert_eq!(field_in(&event_update.fields, "extra_guest_count"), Some("2"));
    assert_eq!(field_in(&event_update.fields, "response_timestamp_ms"), Some("1700000012456"));
    assert_eq!(field_in(&event_update.fields, "unread"), Some("false"));
}

#[test]
fn processes_history_web_message_reactions() {
    let target_key = MessageKey {
        remote_jid: Some("123@g.us".to_owned()),
        from_me: Some(false),
        id: Some("target-1".to_owned()),
        participant: Some("456@s.whatsapp.net".to_owned()),
    };
    let mut message = web_message(target_key.clone());
    message.message_timestamp = Some(1_700_000_016);
    message.reactions.push(HistoryReaction {
        key: Some(MessageKey {
            remote_jid: Some("123@g.us".to_owned()),
            from_me: Some(false),
            id: Some("reaction-1".to_owned()),
            participant: Some("789@s.whatsapp.net".to_owned()),
        }),
        text: Some("+".to_owned()),
        sender_timestamp_ms: Some(1_700_000_016_123),
    });
    let mut history = payload(0);
    let mut chat = conversation("123@g.us");
    chat.messages.push(HistorySyncMsg { msg_order_id: Some(11), message: Some(message) });
    history.conversations.push(chat);
    let processed = process_history_sync(&history, HistorySyncProcessConfig::default()).unwrap();
    assert_eq!(processed.messages.len(), 1);
    assert_eq!(processed.messages[0].key.id, "target-1");
    assert!(processed.message_updates.is_empty());
    assert_eq!(processed.reactions.len(), 1);
    let reaction = &processed.reactions[0];
    assert_eq!(reaction.key, history_message_event_key(&target_key).unwrap());
    assert_eq!(reaction.from, "789@s.whatsapp.net");
    assert_eq!(reaction.text.as_deref(), Some("+"));
    assert_eq!(reaction.timestamp, Some(1_700_000_016_123));
}

#[test]
fn history_messages_need_a_key_an_id_and_a_message() {
    let mut history = payload(0);
    let mut chat = conversation("123@g.us");
    chat.messages.push(HistorySyncMsg { msg_order_id: None, message: None });
    history.conversations.push(chat);
    assert_eq!(
        process_history_sync(&history, HistorySyncProcessConfig::default()).unwrap_err().message(),
        "protocol error: history sync message item missing message"
    );

    let mut history = payload(0);
    let mut chat = conversation("123@g.us");
    let no_remote = web_message(MessageKey { remote_jid: None, from_me: None, id: Some("m".to_owned()), participant: None });
    chat.messages.push(HistorySyncMsg { msg_order_id: None, message: Some(no_remote) });
    history.conversations.push(chat);
    let processed = process_history_sync(&history, HistorySyncProcessConfig::default()).unwrap();
    assert_eq!(processed.messages[0].key.remote_jid, "123@g.us");

    let mut history = payload(3);
    history.status_v3_messages.push(web_message(MessageKey { remote_jid: None, from_me: None, id: Some("m".to_owned()), participant: None }));
    assert_eq!(
        process_history_sync(&history, HistorySyncProcessConfig::default()).unwrap_err().message(),
        "protocol error: history message missing remote JID"
    );

    let mut history = payload(1);
    history.status_v3_messages.push(web_message(MessageKey {
        remote_jid: Some("status@broadcast".to_owned()),
        from_me: None,
        id: Some(String::new()),
        participant: None,
    }));
    assert_eq!(
        process_history_sync(&history, HistorySyncProcessConfig::default()).unwrap_err().message(),
        "protocol error: history message missing id"
    );

    let mut history = payload(4);
    history.status_v3_messages.push(web_message(MessageKey { remote_jid: None, from_me: None, id: None, participant: None }));
    assert!(process_history_sync(&history, HistorySyncProcessConfig::default()).unwrap().messages.is_empty());
}

#[test]
fn history_past_participants_group_by_reason_and_count_against_the_limit() {
    let record = HistoryPastParticipants {
        group_jid: Some("1@g.us".to_owned()),
        past_participants: vec![
            HistoryPastParticipant { user_jid: Some("1@s.whatsapp.net".to_owned()), leave_reason: Some(7), leave_ts: None },
            HistoryPastParticipant { user_jid: Some("2@s.whatsapp.net".to_owned()), leave_reason: None, leave_ts: Some(5) },
            HistoryPastParticipant { user_jid: Some("3@s.whatsapp.net".to_owned()), leave_reason: Some(0), leave_ts: None },
        ],
    };
    let mut count = 0usize;
    let group = history_past_participants_event(&record, 10, &mut count).unwrap().unwrap();
    assert_eq!(count, 3);
    assert_eq!(
        group.fields,
        vec![
            ("source".to_owned(), "history_past_participants".to_owned()),
            ("past_participants_count".to_owned(), "3".to_owned()),
            ("participants_leave".to_owned(), "3@s.whatsapp.net".to_owned()),
            ("participants_leave_count".to_owned(), "1".to_owned()),
            ("participants_past".to_owned(), "1@s.whatsapp.net,2@s.whatsapp.net".to_owned()),
            ("participants_past_count".to_owned(), "2".to_owned()),
            ("participants_past_timestamps".to_owned(), "2@s.whatsapp.net=5".to_owned()),
            (
                "past_participant_reasons".to_owned(),
                "1@s.whatsapp.net=UNKNOWN,2@s.whatsapp.net=UNKNOWN,3@s.whatsapp.net=LEFT".to_owned(),
            ),
            ("past_participant_timestamps".to_owned(), "2@s.whatsapp.net=5".to_owned()),
        ]
    );
    let mut count = 8usize;
    assert_eq!(
        history_past_participants_event(&record, 10, &mut count).unwrap_err().message(),
        "payload error: history past participants exceeds configured item limit: 10 items reaches 10"
    );
    let empty = HistoryPastParticipants { group_jid: None, past_participants: Vec::new() };
    let mut count = 0usize;
    assert_eq!(history_past_participants_event(&empty, 10, &mut count).unwrap(), None);
    let no_group = HistoryPastParticipants { group_jid: Some(String::new()), past_participants: record.past_participants.clone() };
    assert_eq!(
        history_past_participants_event(&no_group, 10, &mut count).unwrap_err().message(),
        "protocol error: history past participants missing group JID"
    );
}

#[test]
fn history_recent_stickers_need_something_that_identifies_them() {
    let mut sticker = HistoryStickerMetadata {
        url: None,
        file_sha256: Some(Vec::new()),
        file_enc_sha256: None,
        media_key: Some(Vec::new()),
        mimetype: Some(String::new()),
        height: None,
        width: None,
        direct_path: Some("   ".to_owned()),
        file_length: None,
        weight_text: None,
        last_sticker_sent_ts: Some(-3),
        is_lottie: None,
        image_hash: None,
        is_avatar_sticker: None,
    };
    assert_eq!(history_recent_sticker_event(&sticker), None);
    sticker.url = Some(" https://x ".to_owned());
    let event = history_recent_sticker_event(&sticker).unwrap();
    assert_eq!(event.id, "url:https://x");
    assert_eq!(event.file_sha256, None);
    assert_eq!(event.media_key, None);
    assert_eq!(
        event.fields,
        vec![
            ("source".to_owned(), "history_recent_sticker".to_owned()),
            ("url".to_owned(), " https://x ".to_owned()),
            ("direct_path".to_owned(), "   ".to_owned()),
            ("last_sticker_sent_ts".to_owned(), "-3".to_owned()),
        ]
    );
}

#[test]
fn history_messages_stay_under_the_message_limit() {
    let mut history = payload(0);
    let mut chat = conversation("123@g.us");
    for id in ["a", "b"] {
        let message = web_message(MessageKey {
            remote_jid: Some("123@g.us".to_owned()),
            from_me: Some(true),
            id: Some(id.to_owned()),
            participant: None,
        });
        chat.messages.push(HistorySyncMsg { msg_order_id: None, message: Some(message) });
    }
    history.conversations.push(chat);
    let config = HistorySyncProcessConfig { max_messages: 1, ..HistorySyncProcessConfig::default() };
    assert_eq!(
        process_history_sync(&history, config).unwrap_err().message(),
        "payload error: history messages exceeds configured item limit: 1 items reaches 1"
    );
    let config = HistorySyncProcessConfig { max_messages: 2, ..HistorySyncProcessConfig::default() };
    let processed = process_history_sync(&history, config).unwrap();
    assert_eq!(processed.messages.len(), 2);
    assert_eq!(field_in(&processed.messages[1].fields, "from_me"), Some("true"));
}

fn first_chunk_len(compressed: &[u8]) -> usize {
    let mut decoder = flate2::read::ZlibDecoder::new(compressed);
    let mut chunk = [0u8; 8192];
    std::io::Read::read(&mut decoder, &mut chunk).unwrap()
}

#[test]
fn inflation_is_refused_at_the_first_chunk_over_the_limit() {
    let plain: Vec<u8> = (0..30_000u32).map(|i| (i % 251) as u8).collect();
    let compressed = zlib(&plain);
    let first = first_chunk_len(&compressed);
    assert_eq!(
        inflate_zlib_bounded(&compressed, 1).unwrap_err().message(),
        format!("payload error: inflated history sync exceeds configured limit: {first} bytes exceeds 1")
    );
    assert_eq!(inflate_zlib_bounded(&compressed, 30_000).unwrap(), plain);
    assert!(inflate_zlib_bounded(&compressed, 29_999).is_err());

    let truncated = &compressed[..compressed.len() - 6];
    assert!(inflate_zlib_bounded(truncated, 100)
        .unwrap_err()
        .message()
        .starts_with("payload error: inflated history sync exceeds configured limit: "));
    assert!(inflate_zlib_bounded(truncated, 1_000_000)
        .unwrap_err()
        .message()
        .starts_with("payload error: failed to inflate history sync: "));
}
