//! Processing of a decoded history payload into chat and contact records and
//! LID mappings, under the configured item limits.

use crate::error::{CoreError, CoreResult};
use crate::history::{
    account_lid, chat_is_lid_of, collect_conversation_mappings, collect_direct_mappings, direct_entries_ok,
    direct_pairs, ensure_capacity, history_default_disappearing_mode, history_jid_fault, mapping_fault,
    mapping_views, named_lid, normalize_history_account_lid, on_pn_server, opt_str, with_pair,
    HistoryLidPnMapping, HistorySyncKind, HistorySyncProcessConfig,
};
use crate::history::call_log::{
    call_views, fold_calls, push_history_call_log_events, CallView, HistoryCallEvent, HistoryCallLogRecord,
};
use crate::history::add_on::{HistoryMessageUpdate, UpdateView};
use crate::history::web_message::{
    fold_items, fold_statuses, lemma_fold_items_within, lemma_fold_statuses_within, msg_state, msg_within,
    MessageView, ReactionView, push_history_statuses, push_history_sync_items, HistoryMessageEvent,
    HistoryReactionEvent, HistorySyncMsg, HistoryWebMessage, MsgState,
};
use crate::history::past_participants::{fold_past, push_history_past_participant_events, HistoryPastParticipants};
use crate::history::stickers::{
    fold_stickers, push_history_recent_sticker_events, sticker_views, HistoryStickerEvent, HistoryStickerMetadata,
    StickerView,
};
use crate::jid::jid_valid;
use crate::text::{decimal_chars, opt_view, owned, signed_decimal};
use vstd::prelude::*;

verus! {

/// A conversation of a history payload, as plain values.
#[derive(Clone, Debug, PartialEq, Eq)]
pub struct HistoryConversation {
    pub id: String,
    pub name: Option<String>,
    pub display_name: Option<String>,
    pub username: Option<String>,
    pub pn_jid: Option<String>,
    pub lid_jid: Option<String>,
    pub account_lid: Option<String>,
    pub last_msg_timestamp: Option<u64>,
    pub conversation_timestamp: Option<u64>,
    pub unread_count: Option<u64>,
    pub unread_mention_count: Option<u64>,
    pub ephemeral_expiration: Option<u64>,
    pub pinned: Option<u64>,
    pub mute_end_time: Option<u64>,
    pub archived: Option<bool>,
    pub read_only: Option<bool>,
    pub marked_as_unread: Option<bool>,
    pub end_of_history_transfer: Option<bool>,
    pub messages: Vec<HistorySyncMsg>,
}

/// A push name of a history payload: the contact's JID and its name.
#[derive(Clone, Debug, PartialEq, Eq)]
pub struct HistoryPushname {
    pub id: Option<String>,
    pub pushname: Option<String>,
}

/// An account of the user listed in a history payload.
#[derive(Clone, Debug, PartialEq, Eq)]
pub struct HistoryAccount {
    pub lid: Option<String>,
    pub username: Option<String>,
    pub country_code: Option<String>,
    pub is_username_deleted: Option<bool>,
}

/// A decoded history payload, as plain values: its kind, progress, global
/// settings and account secrets, its phone-number/LID pairs,
/// conversations, push names and accounts.
#[derive(Clone, Debug, PartialEq, Eq)]
pub struct HistorySyncPayload {
    pub sync_type: i32,
    pub progress: Option<u32>,
    pub chunk_order: Option<u32>,
    pub global_settings: Option<HistoryGlobalSettings>,
    pub thread_ds_timeframe_offset: Option<u64>,
    pub companion_meta_nonce: Option<String>,
    pub thread_id_user_secret: Option<Vec<u8>>,
    pub shareable_chat_identifier_encryption_key: Option<Vec<u8>>,
    pub ai_wait_list_state: Option<i32>,
    pub phone_number_to_lid_mappings: Vec<(Option<String>, Option<String>)>,
    pub conversations: Vec<HistoryConversation>,
    pub pushnames: Vec<HistoryPushname>,
    pub accounts: Vec<HistoryAccount>,
    pub call_log_records: Vec<HistoryCallLogRecord>,
    pub status_v3_messages: Vec<HistoryWebMessage>,
    pub past_participants: Vec<HistoryPastParticipants>,
    pub recent_stickers: Vec<HistoryStickerMetadata>,
}

/// A chat or contact reported by a history payload: its JID and its named
/// fields, in the order they were set.
#[derive(Clone, Debug, PartialEq, Eq)]
pub struct HistoryRecord {
    pub id: String,
    pub fields: Vec<(String, String)>,
}

/// What processing a history payload gives.
#[derive(Clone, Debug, PartialEq, Eq)]
pub struct ProcessedHistorySync {
    pub sync_type: HistorySyncKind,
    pub progress: Option<u32>,
    pub chunk_order: Option<u32>,
    pub is_latest: bool,
    pub chats: Vec<HistoryRecord>,
    pub contacts: Vec<HistoryRecord>,
    pub lid_pn_mappings: Vec<HistoryLidPnMapping>,
    pub default_disappearing_mode: Option<(u32, Option<u64>)>,
    pub messages: Vec<HistoryMessageEvent>,
    pub message_updates: Vec<HistoryMessageUpdate>,
    pub reactions: Vec<HistoryReactionEvent>,
    pub calls: Vec<HistoryCallEvent>,
    pub groups: Vec<HistoryRecord>,
    pub recent_stickers: Vec<HistoryStickerEvent>,
    pub account_settings: Option<HistoryRecord>,
}

pub type FieldView = (Seq<char>, Seq<char>);

pub type RecordView = (Seq<char>, Seq<FieldView>);

/// Chats, contacts and LID/phone-number pairs gathered so far.
pub type Gathered = (Seq<RecordView>, Seq<RecordView>, Seq<(Seq<char>, Seq<char>)>);

/// A refusal: whether it is a payload error (else a protocol error), and
/// its text.
pub type Refusal = (bool, Seq<char>);

pub open spec fn fields_view(f: Seq<(String, String)>) -> Seq<FieldView> {
    f.map_values(|p: (String, String)| (p.0@, p.1@))
}

pub open spec fn record_view(r: HistoryRecord) -> RecordView {
    (r.id@, fields_view(r.fields@))
}

pub open spec fn records_view(v: Seq<HistoryRecord>) -> Seq<RecordView> {
    v.map_values(|r: HistoryRecord| record_view(r))
}

pub open spec fn refusal_of(e: CoreError) -> Refusal {
    (e is Payload, e.detail())
}

/// The field `key` with a text, when the text is given and not empty.
pub open spec fn opt_text(key: Seq<char>, value: Option<Seq<char>>) -> Seq<FieldView> {
    match value {
        Some(v) => if v.len() > 0 {
            seq![(key, v)]
        } else {
            Seq::empty()
        },
        None => Seq::empty(),
    }
}

/// The field `key` with a number in decimal, when it is given.
pub open spec fn opt_number(key: Seq<char>, value: Option<u64>) -> Seq<FieldView> {
    match value {
        Some(n) => seq![(key, decimal_chars(n as nat))],
        None => Seq::empty(),
    }
}

/// The field `key` with `true` or `false`, when it is given.
pub open spec fn opt_bool(key: Seq<char>, value: Option<bool>) -> Seq<FieldView> {
    match value {
        Some(b) => seq![(key, crate::message::bool_text(b))],
        None => Seq::empty(),
    }
}

pub open spec fn first_given(a: Option<Seq<char>>, b: Option<Seq<char>>) -> Option<Seq<char>> {
    if a is Some {
        a
    } else {
        b
    }
}

/// The fields of the chat record of a conversation.
pub open spec fn chat_fields(c: HistoryConversation) -> Seq<FieldView> {
    opt_text("name"@, opt_view(c.name)) + opt_text("display_name"@, opt_view(c.display_name)) + opt_text(
        "username"@,
        opt_view(c.username),
    ) + opt_text("pn_jid"@, opt_view(c.pn_jid)) + opt_text("lid_jid"@, opt_view(c.lid_jid)) + opt_text(
        "account_lid"@,
        opt_view(c.account_lid),
    ) + opt_number("last_msg_timestamp"@, c.last_msg_timestamp) + opt_number(
        "conversation_timestamp"@,
        c.conversation_timestamp,
    ) + opt_number("unread_count"@, c.unread_count) + opt_number("unread_mention_count"@, c.unread_mention_count)
        + opt_number("ephemeral_expiration"@, c.ephemeral_expiration) + opt_number("pinned"@, c.pinned)
        + opt_number("mute_end_time"@, c.mute_end_time) + opt_bool("archived"@, c.archived) + opt_bool(
        "read_only"@,
        c.read_only,
    ) + opt_bool("marked_as_unread"@, c.marked_as_unread) + opt_bool(
        "end_of_history_transfer"@,
        c.end_of_history_transfer,
    )
}

/// The fields of the contact record of a conversation: its display name
/// (else name, else username), username, LID (else account LID) and phone
/// number.
pub open spec fn conversation_contact_fields(c: HistoryConversation) -> Seq<FieldView> {
    opt_text(
        "name"@,
        first_given(opt_view(c.display_name), first_given(opt_view(c.name), opt_view(c.username))),
    ) + opt_text("username"@, opt_view(c.username)) + opt_text(
        "lid_jid"@,
        first_given(opt_view(c.lid_jid), opt_view(c.account_lid)),
    ) + opt_text("pn_jid"@, opt_view(c.pn_jid))
}

/// The value of the first field named `key`, if any.
pub open spec fn field_value(f: Seq<FieldView>, key: Seq<char>) -> Option<Seq<char>>
    decreases f.len(),
{
    if f.len() == 0 {
        None
    } else if f[0].0 == key {
        Some(f[0].1)
    } else {
        field_value(f.drop_first(), key)
    }
}

/// A text when it is given and not empty.
pub open spec fn given_text(o: Option<Seq<char>>) -> Option<Seq<char>> {
    match o {
        Some(v) => if v.len() > 0 {
            Some(v)
        } else {
            None
        },
        None => None,
    }
}

proof fn lemma_field_value_after_opt_text(k: Seq<char>, v: Option<Seq<char>>, rest: Seq<FieldView>, key: Seq<char>)
    ensures
        field_value(opt_text(k, v) + rest, key) == if k == key && given_text(v) is Some {
            given_text(v)
        } else {
            field_value(rest, key)
        },
{
    let h = opt_text(k, v);
    if h.len() > 0 {
        assert((h + rest).drop_first() =~= rest);
    } else {
        assert(h + rest =~= rest);
    }
}

/// The contact record of a conversation holds, under `name`, its display
/// name, else its name, else its username (the first that is given, when
/// not empty); under `username` its username; under `lid_jid` its LID, else
/// its account LID; under `pn_jid` its phone-number JID; each only when not
/// empty, and nothing else.
pub proof fn lemma_conversation_contact_fields(c: HistoryConversation, key: Seq<char>)
    ensures
        field_value(conversation_contact_fields(c), "name"@) == given_text(
            first_given(opt_view(c.display_name), first_given(opt_view(c.name), opt_view(c.username))),
        ),
        field_value(conversation_contact_fields(c), "username"@) == given_text(opt_view(c.username)),
        field_value(conversation_contact_fields(c), "lid_jid"@) == given_text(
            first_given(opt_view(c.lid_jid), opt_view(c.account_lid)),
        ),
        field_value(conversation_contact_fields(c), "pn_jid"@) == given_text(opt_view(c.pn_jid)),
        key != "name"@ && key != "username"@ && key != "lid_jid"@ && key != "pn_jid"@ ==> field_value(
            conversation_contact_fields(c),
            key,
        ) is None,
        conversation_contact_fields(c).len() <= 4,
{
    reveal_strlit("name");
    reveal_strlit("username");
    reveal_strlit("lid_jid");
    reveal_strlit("pn_jid");
    assert("name"@.len() != "username"@.len());
    assert("name"@.len() != "lid_jid"@.len());
    assert("name"@.len() != "pn_jid"@.len());
    assert("username"@.len() != "lid_jid"@.len());
    assert("username"@.len() != "pn_jid"@.len());
    assert("lid_jid"@.len() != "pn_jid"@.len());
    let n = first_given(opt_view(c.display_name), first_given(opt_view(c.name), opt_view(c.username)));
    let l = first_given(opt_view(c.lid_jid), opt_view(c.account_lid));
    let a = opt_text("name"@, n);
    let b = opt_text("username"@, opt_view(c.username));
    let d = opt_text("lid_jid"@, l);
    let e = opt_text("pn_jid"@, opt_view(c.pn_jid));
    let empty = Seq::<FieldView>::empty();
    assert(conversation_contact_fields(c) =~= a + (b + (d + (e + empty))));
    assert forall|k: Seq<char>| true implies field_value(conversation_contact_fields(c), k) == (if k == "name"@
        && given_text(n) is Some {
        given_text(n)
    } else if k == "username"@ && given_text(opt_view(c.username)) is Some {
        given_text(opt_view(c.username))
    } else if k == "lid_jid"@ && given_text(l) is Some {
        given_text(l)
    } else if k == "pn_jid"@ && given_text(opt_view(c.pn_jid)) is Some {
        given_text(opt_view(c.pn_jid))
    } else {
        None
    }) by {
        lemma_field_value_after_opt_text("pn_jid"@, opt_view(c.pn_jid), empty, k);
        lemma_field_value_after_opt_text("lid_jid"@, l, e + empty, k);
        lemma_field_value_after_opt_text("username"@, opt_view(c.username), d + (e + empty), k);
        lemma_field_value_after_opt_text("name"@, n, b + (d + (e + empty)), k);
    }
    assert(field_value(conversation_contact_fields(c), "name"@) == given_text(n));
    assert(field_value(conversation_contact_fields(c), "username"@) == given_text(opt_view(c.username)));
    assert(field_value(conversation_contact_fields(c), "lid_jid"@) == given_text(l));
    assert(field_value(conversation_contact_fields(c), "pn_jid"@) == given_text(opt_view(c.pn_jid)));
}

/// The contact of a conversation is named by its display name when it has
/// one, else by its name, else by its username: when the first of these
/// that is given is not empty, the contact's first field is `name` with
/// that text; a conversation with none of them gives no `name` field first.
pub proof fn lemma_conversation_contact_name(c: HistoryConversation)
    ensures
        ({
            let chosen = if c.display_name is Some {
                c.display_name
            } else if c.name is Some {
                c.name
            } else {
                c.username
            };
            &&& (chosen matches Some(n) ==> (n@.len() > 0 ==> conversation_contact_fields(c).len() > 0
                && conversation_contact_fields(c)[0] == ("name"@, n@)))
            &&& (c.display_name is None && c.name is Some && c.name.unwrap()@.len() > 0)
                ==> conversation_contact_fields(c)[0] == ("name"@, c.name.unwrap()@)
            &&& (chosen is None && conversation_contact_fields(c).len() > 0) ==> conversation_contact_fields(
                c,
            )[0].0 != "name"@
        }),
{
    reveal_strlit("name");
    reveal_strlit("username");
    reveal_strlit("lid_jid");
    reveal_strlit("pn_jid");
    let f = conversation_contact_fields(c);
    let rest = opt_text("username"@, opt_view(c.username)) + opt_text(
        "lid_jid"@,
        first_given(opt_view(c.lid_jid), opt_view(c.account_lid)),
    ) + opt_text("pn_jid"@, opt_view(c.pn_jid));
    let head = opt_text(
        "name"@,
        first_given(opt_view(c.display_name), first_given(opt_view(c.name), opt_view(c.username))),
    );
    assert(f =~= head + rest);
    let chosen = if c.display_name is Some {
        c.display_name
    } else if c.name is Some {
        c.name
    } else {
        c.username
    };
    assert(first_given(opt_view(c.display_name), first_given(opt_view(c.name), opt_view(c.username)))
        == opt_view(chosen));
    if head.len() > 0 {
        assert(f[0] == head[0]);
    } else if f.len() > 0 {
        assert(f[0] == rest[0]);
        assert("name"@.len() != "username"@.len());
        assert("name"@ != "username"@);
        assert("name"@.len() != "lid_jid"@.len());
        assert("name"@ != "lid_jid"@);
        assert("name"@ != "pn_jid"@);
        let u = opt_text("username"@, opt_view(c.username));
        let l = opt_text("lid_jid"@, first_given(opt_view(c.lid_jid), opt_view(c.account_lid)));
        if u.len() > 0 {
            assert(rest[0] == u[0]);
        } else if l.len() > 0 {
            assert(rest[0] == l[0]);
        }
    }
}

/// The fields of the contact record of an account with LID `lid`.
pub open spec fn account_fields(a: HistoryAccount, lid: Seq<char>) -> Seq<FieldView> {
    seq![("source"@, "history_account"@), ("lid_jid"@, lid)] + if a.is_username_deleted == Some(true) {
        seq![("username"@, Seq::<char>::empty()), ("username_deleted"@, "true"@), ("is_username_deleted"@, "true"@)]
    } else {
        opt_text("username"@, opt_view(a.username)) + opt_bool("is_username_deleted"@, a.is_username_deleted)
    } + opt_text("country_code"@, opt_view(a.country_code))
}

/// The text of the error for one item more than a limit allows.
pub open spec fn capacity_text(label: Seq<char>, current: nat, max: nat) -> Seq<char> {
    label + " exceeds configured item limit: "@ + decimal_chars(current) + " items reaches "@ + decimal_chars(max)
}

/// The LID/phone-number pairs after a conversation is looked at, or why it
/// is refused.
pub open spec fn conversation_pairs(v: Seq<(Seq<char>, Seq<char>)>, c: HistoryConversation) -> Result<
    Seq<(Seq<char>, Seq<char>)>,
    Seq<char>,
> {
    let chat = c.id@;
    let pn = opt_view(c.pn_jid);
    let first = chat_is_lid_of(chat, pn, opt_view(c.lid_jid), opt_view(c.account_lid));
    let mid = if first {
        with_pair(v, (chat, pn.unwrap()))
    } else {
        v
    };
    let lid = named_lid(opt_view(c.lid_jid), opt_view(c.account_lid));
    let second = lid is Some && on_pn_server(chat);
    if first && !(jid_valid(chat) && jid_valid(pn.unwrap())) {
        Err(mapping_fault(chat, pn.unwrap()))
    } else if second && !jid_valid(lid.unwrap()) {
        Err(mapping_fault(lid.unwrap(), chat))
    } else if second {
        Ok(with_pair(mid, (lid.unwrap(), chat)))
    } else {
        Ok(mid)
    }
}

/// What a conversation adds: its chat record, its contact record and its
/// LID/phone-number pairs, or why it is refused.
pub open spec fn conversation_step(g: Gathered, c: HistoryConversation, config: HistorySyncProcessConfig) -> Result<
    Gathered,
    Refusal,
> {
    if !jid_valid(c.id@) {
        Err((false, history_jid_fault("history chat JID"@, c.id@)))
    } else if g.0.len() >= config.max_chats {
        Err((true, capacity_text("history chats"@, g.0.len(), config.max_chats as nat)))
    } else if g.1.len() >= config.max_contacts {
        Err((true, capacity_text("history contacts"@, g.1.len(), config.max_contacts as nat)))
    } else {
        match conversation_pairs(g.2, c) {
            Err(m) => Err((false, m)),
            Ok(pairs) => Ok(
                (g.0.push((c.id@, chat_fields(c))), g.1.push((c.id@, conversation_contact_fields(c))), pairs),
            ),
        }
    }
}

/// What a push name adds: a contact record with its name.
pub open spec fn pushname_step(g: Gathered, p: HistoryPushname, config: HistorySyncProcessConfig) -> Result<
    Gathered,
    Refusal,
> {
    if g.1.len() >= config.max_contacts {
        Err((true, capacity_text("history contacts"@, g.1.len(), config.max_contacts as nat)))
    } else if p.id is None {
        Err((false, "history push name missing JID"@))
    } else if !jid_valid(opt_view(p.id).unwrap()) {
        Err((false, history_jid_fault("history push name JID"@, opt_view(p.id).unwrap())))
    } else {
        Ok((g.0, g.1.push((opt_view(p.id).unwrap(), opt_text("notify"@, opt_view(p.pushname)))), g.2))
    }
}

/// What an account adds: a contact record under its canonical LID, when it
/// names one.
pub open spec fn account_step(g: Gathered, a: HistoryAccount, config: HistorySyncProcessConfig) -> Result<
    Gathered,
    Refusal,
> {
    match opt_view(a.lid) {
        None => Ok(g),
        Some(l) => match account_lid(l) {
            Err(m) => Err((false, m)),
            Ok(None) => Ok(g),
            Ok(Some(j)) => if g.1.len() >= config.max_contacts {
                Err((true, capacity_text("history contacts"@, g.1.len(), config.max_contacts as nat)))
            } else {
                Ok((g.0, g.1.push((j, account_fields(a, j))), g.2))
            },
        },
    }
}

/// Chats, contacts, pairs, and the messages gathered so far.
pub type State = (Gathered, MsgState);

/// What a conversation adds: its records and pairs, then its messages.
pub open spec fn conversation_full_step(
    s: State,
    c: HistoryConversation,
    kind: HistorySyncKind,
    config: HistorySyncProcessConfig,
) -> Result<State, Refusal> {
    match conversation_step(s.0, c, config) {
        Err(e) => Err(e),
        Ok(g) => match fold_items(s.1, c.messages@, c.id@, kind, config.max_messages as nat) {
            Err(e) => Err(e),
            Ok(ms) => Ok((g, ms)),
        },
    }
}

pub open spec fn fold_conversations(
    s: State,
    cs: Seq<HistoryConversation>,
    kind: HistorySyncKind,
    config: HistorySyncProcessConfig,
) -> Result<State, Refusal>
    decreases cs.len(),
{
    if cs.len() == 0 {
        Ok(s)
    } else {
        match fold_conversations(s, cs.drop_last(), kind, config) {
            Err(e) => Err(e),
            Ok(h) => conversation_full_step(h, cs.last(), kind, config),
        }
    }
}

pub open spec fn fold_pushnames(g: Gathered, ps: Seq<HistoryPushname>, config: HistorySyncProcessConfig) -> Result<
    Gathered,
    Refusal,
>
    decreases ps.len(),
{
    if ps.len() == 0 {
        Ok(g)
    } else {
        match fold_pushnames(g, ps.drop_last(), config) {
            Err(e) => Err(e),
            Ok(h) => pushname_step(h, ps.last(), config),
        }
    }
}

pub open spec fn fold_accounts(g: Gathered, accs: Seq<HistoryAccount>, config: HistorySyncProcessConfig) -> Result<
    Gathered,
    Refusal,
>
    decreases accs.len(),
{
    if accs.len() == 0 {
        Ok(g)
    } else {
        match fold_accounts(g, accs.drop_last(), config) {
            Err(e) => Err(e),
            Ok(h) => account_step(h, accs.last(), config),
        }
    }
}

/// The kind with wire number `n`, if any.
pub open spec fn sync_kind_of(n: int) -> Option<HistorySyncKind> {
    if n == 0 {
        Some(HistorySyncKind::InitialBootstrap)
    } else if n == 1 {
        Some(HistorySyncKind::InitialStatusV3)
    } else if n == 2 {
        Some(HistorySyncKind::Full)
    } else if n == 3 {
        Some(HistorySyncKind::Recent)
    } else if n == 4 {
        Some(HistorySyncKind::PushName)
    } else if n == 5 {
        Some(HistorySyncKind::NonBlockingData)
    } else if n == 6 {
        Some(HistorySyncKind::OnDemand)
    } else {
        None
    }
}

pub open spec fn reads_conversations(k: HistorySyncKind) -> bool {
    k is InitialBootstrap || k is Full || k is Recent || k is OnDemand
}

pub open spec fn reads_pushnames(k: HistorySyncKind) -> bool {
    k is PushName || k is NonBlockingData
}

pub open spec fn reads_accounts(k: HistorySyncKind) -> bool {
    k is NonBlockingData
}

/// The default disappearing-message setting, or why it is refused.
pub open spec fn disappearing_setting(duration: Option<i32>, timestamp: Option<i64>) -> Result<
    Option<(u32, Option<u64>)>,
    Seq<char>,
> {
    match duration {
        None => Ok(None),
        Some(d) => if d < 0 {
            Err("history global settings disappearing duration is negative"@)
        } else if timestamp matches Some(t) && t < 0 {
            Err("history global settings disappearing timestamp is negative"@)
        } else {
            Ok(
                Some(
                    (
                        d as u32,
                        match timestamp {
                            Some(t) => Some(t as u64),
                            None => None,
                        },
                    ),
                ),
            )
        },
    }
}

/// The text of the error for the first phone-number/LID entry that names an
/// invalid JID.
pub open spec fn direct_fault(entries: Seq<(Option<String>, Option<String>)>) -> Seq<char>
    decreases entries.len(),
{
    if entries.len() == 0 {
        Seq::empty()
    } else {
        match entries[0] {
            (Some(pn), Some(lid)) => if !(jid_valid(pn@) && jid_valid(lid@)) {
                mapping_fault(lid@, pn@)
            } else {
                direct_fault(entries.drop_first())
            },
            _ => direct_fault(entries.drop_first()),
        }
    }
}

pub open spec fn settings_duration(h: HistorySyncPayload) -> Option<i32> {
    match h.global_settings {
        Some(s) => s.disappearing_mode_duration,
        None => None,
    }
}

pub open spec fn settings_timestamp(h: HistorySyncPayload) -> Option<i64> {
    match h.global_settings {
        Some(s) => s.disappearing_mode_timestamp,
        None => None,
    }
}

/// What processing a history payload gives: its kind, the chats, contacts
/// and LID/phone-number pairs it reports, and its default disappearing
/// setting; or why it is refused.
pub open spec fn processed_history(h: HistorySyncPayload, config: HistorySyncProcessConfig) -> Result<
    (HistorySyncKind, Gathered, Option<(u32, Option<u64>)>, MsgState),
    Refusal,
> {
    match sync_kind_of(h.sync_type as int) {
        None => Err((false, "unknown history sync type: "@ + signed_decimal(h.sync_type as int))),
        Some(k) => match disappearing_setting(settings_duration(h), settings_timestamp(h)) {
            Err(m) => Err((false, m)),
            Ok(mode) => if !direct_entries_ok(h.phone_number_to_lid_mappings@) {
                Err((false, direct_fault(h.phone_number_to_lid_mappings@)))
            } else {
                let s0: State = (
                    (Seq::empty(), Seq::empty(), direct_pairs(Seq::empty(), h.phone_number_to_lid_mappings@)),
                    (Seq::empty(), Seq::empty(), Seq::empty()),
                );
                let s1 = if reads_conversations(k) {
                    fold_conversations(s0, h.conversations@, k, config)
                } else {
                    Ok(s0)
                };
                let s2 = match s1 {
                    Err(e) => Err(e),
                    Ok(s) => if reads_pushnames(k) {
                        match fold_pushnames(s.0, h.pushnames@, config) {
                            Err(e) => Err(e),
                            Ok(g) => Ok((g, s.1)),
                        }
                    } else {
                        Ok(s)
                    },
                };
                let s3 = match s2 {
                    Err(e) => Err(e),
                    Ok(s) => if reads_accounts(k) {
                        match fold_accounts(s.0, h.accounts@, config) {
                            Err(e) => Err(e),
                            Ok(g) => Ok((g, s.1)),
                        }
                    } else {
                        Ok(s)
                    },
                };
                let s4 = match s3 {
                    Err(e) => Err(e),
                    Ok(s) => if reads_statuses(k) {
                        match fold_statuses(s.1, h.status_v3_messages@, k, config.max_messages as nat) {
                            Err(e) => Err(e),
                            Ok(ms) => Ok((s.0, ms)),
                        }
                    } else {
                        Ok(s)
                    },
                };
                match s4 {
                    Err(e) => Err(e),
                    Ok(s) => Ok((k, s.0, mode, s.1)),
                }
            },
        },
    }
}

/// Whether a kind of payload reads its status messages: all but push-name
/// payloads do.
pub open spec fn reads_statuses(k: HistorySyncKind) -> bool {
    !(k is PushName)
}

// ---------------------------------------------------------------------------
// Building records.
// ---------------------------------------------------------------------------

pub(crate) fn as_opt_str(o: &Option<String>) -> (r: Option<&str>)
    ensures
        opt_str(r) == opt_view(*o),
{
    match o {
        Some(s) => Some(s.as_str()),
        None => None,
    }
}

fn first_of<'a>(a: Option<&'a str>, b: Option<&'a str>) -> (r: Option<&'a str>)
    ensures
        opt_str(r) == first_given(opt_str(a), opt_str(b)),
{
    match a {
        Some(x) => Some(x),
        None => b,
    }
}

pub(crate) fn push_field(f: &mut Vec<(String, String)>, key: &str, value: String)
    ensures
        fields_view(final(f)@) == fields_view(old(f)@).push((key@, value@)),
{
    f.push((owned(key), value));
    assert(fields_view(f@) =~= fields_view(old(f)@).push((key@, value@)));
}

pub(crate) fn push_text(f: &mut Vec<(String, String)>, key: &str, value: Option<&str>)
    ensures
        fields_view(final(f)@) == fields_view(old(f)@) + opt_text(key@, opt_str(value)),
{
    if let Some(v) = value {
        if !v.is_empty() {
            push_field(f, key, owned(v));
            assert(fields_view(f@) =~= fields_view(old(f)@) + opt_text(key@, opt_str(value)));
            return;
        }
    }
    assert(fields_view(f@) =~= fields_view(old(f)@) + opt_text(key@, opt_str(value)));
}

pub(crate) fn push_number(f: &mut Vec<(String, String)>, key: &str, value: Option<u64>)
    ensures
        fields_view(final(f)@) == fields_view(old(f)@) + opt_number(key@, value),
{
    if let Some(n) = value {
        push_field(f, key, crate::text::u64_to_string(n));
    }
    assert(fields_view(f@) =~= fields_view(old(f)@) + opt_number(key@, value));
}

pub(crate) fn bool_string(b: bool) -> (s: String)
    ensures
        s@ == crate::message::bool_text(b),
{
    if b {
        owned("true")
    } else {
        owned("false")
    }
}

pub(crate) fn push_bool(f: &mut Vec<(String, String)>, key: &str, value: Option<bool>)
    ensures
        fields_view(final(f)@) == fields_view(old(f)@) + opt_bool(key@, value),
{
    if let Some(b) = value {
        push_field(f, key, bool_string(b));
    }
    assert(fields_view(f@) =~= fields_view(old(f)@) + opt_bool(key@, value));
}

/// The chat record of a conversation: its JID and the fields it gives.
pub fn history_chat_record(c: &HistoryConversation) -> (r: HistoryRecord)
    ensures
        record_view(r) == (c.id@, chat_fields(*c)),
{
    let mut f: Vec<(String, String)> = Vec::new();
    assert(fields_view(f@) =~= Seq::<FieldView>::empty());
    push_text(&mut f, "name", as_opt_str(&c.name));
    assert(fields_view(f@) =~= opt_text("name"@, opt_view(c.name)));
    push_text(&mut f, "display_name", as_opt_str(&c.display_name));
    push_text(&mut f, "username", as_opt_str(&c.username));
    push_text(&mut f, "pn_jid", as_opt_str(&c.pn_jid));
    push_text(&mut f, "lid_jid", as_opt_str(&c.lid_jid));
    push_text(&mut f, "account_lid", as_opt_str(&c.account_lid));
    push_number(&mut f, "last_msg_timestamp", c.last_msg_timestamp);
    push_number(&mut f, "conversation_timestamp", c.conversation_timestamp);
    push_number(&mut f, "unread_count", c.unread_count);
    push_number(&mut f, "unread_mention_count", c.unread_mention_count);
    push_number(&mut f, "ephemeral_expiration", c.ephemeral_expiration);
    push_number(&mut f, "pinned", c.pinned);
    push_number(&mut f, "mute_end_time", c.mute_end_time);
    push_bool(&mut f, "archived", c.archived);
    push_bool(&mut f, "read_only", c.read_only);
    push_bool(&mut f, "marked_as_unread", c.marked_as_unread);
    push_bool(&mut f, "end_of_history_transfer", c.end_of_history_transfer);
    HistoryRecord { id: crate::text::clone_string(&c.id), fields: f }
}

/// The contact record of a conversation: its JID, name, username, LID and
/// phone number.
pub fn history_conversation_contact(c: &HistoryConversation) -> (r: HistoryRecord)
    ensures
        record_view(r) == (c.id@, conversation_contact_fields(*c)),
{
    let mut f: Vec<(String, String)> = Vec::new();
    assert(fields_view(f@) =~= Seq::<FieldView>::empty());
    let name = first_of(as_opt_str(&c.display_name), first_of(as_opt_str(&c.name), as_opt_str(&c.username)));
    push_text(&mut f, "name", name);
    assert(fields_view(f@) =~= opt_text(
        "name"@,
        first_given(opt_view(c.display_name), first_given(opt_view(c.name), opt_view(c.username))),
    ));
    push_text(&mut f, "username", as_opt_str(&c.username));
    push_text(&mut f, "lid_jid", first_of(as_opt_str(&c.lid_jid), as_opt_str(&c.account_lid)));
    push_text(&mut f, "pn_jid", as_opt_str(&c.pn_jid));
    HistoryRecord { id: crate::text::clone_string(&c.id), fields: f }
}

/// The contact record of a push name; refused without a valid JID.
pub fn history_pushname_contact(p: &HistoryPushname) -> (r: CoreResult<HistoryRecord>)
    ensures
        match r {
            Ok(rec) => p.id is Some && jid_valid(opt_view(p.id).unwrap()) && record_view(rec) == (
                opt_view(p.id).unwrap(),
                opt_text("notify"@, opt_view(p.pushname)),
            ),
            Err(e) => e is Protocol && e.detail() == if p.id is None {
                "history push name missing JID"@
            } else {
                history_jid_fault("history push name JID"@, opt_view(p.id).unwrap())
            } && !(p.id is Some && jid_valid(opt_view(p.id).unwrap())),
        },
{
    let jid: &str = match &p.id {
        Some(j) => j.as_str(),
        None => {
            return Err(crate::error::protocol("history push name missing JID"));
        },
    };
    crate::history::validate_history_jid("history push name JID", jid)?;
    let mut f: Vec<(String, String)> = Vec::new();
    assert(fields_view(f@) =~= Seq::<FieldView>::empty());
    push_text(&mut f, "notify", as_opt_str(&p.pushname));
    assert(fields_view(f@) =~= opt_text("notify"@, opt_view(p.pushname)));
    Ok(HistoryRecord { id: owned(jid), fields: f })
}

/// The contact record of an account, under its canonical LID; none when it
/// names no LID; refused when its LID is not a LID.
pub fn history_account_contact(a: &HistoryAccount) -> (r: CoreResult<Option<HistoryRecord>>)
    ensures
        match opt_view(a.lid) {
            None => r matches Ok(None),
            Some(l) => match account_lid(l) {
                Err(m) => r matches Err(e) && e is Protocol && e.detail() == m,
                Ok(None) => r matches Ok(None),
                Ok(Some(j)) => r matches Ok(Some(rec)) && record_view(rec) == (j, account_fields(*a, j)),
            },
        },
{
    let lid: &str = match &a.lid {
        Some(l) => l.as_str(),
        None => {
            return Ok(None);
        },
    };
    let lid_jid = match normalize_history_account_lid(lid)? {
        Some(j) => j,
        None => {
            return Ok(None);
        },
    };
    let mut f: Vec<(String, String)> = Vec::new();
    push_field(&mut f, "source", owned("history_account"));
    push_field(&mut f, "lid_jid", crate::text::clone_string(&lid_jid));
    assert(fields_view(f@) =~= seq![("source"@, "history_account"@), ("lid_jid"@, lid_jid@)]);
    let ghost head = fields_view(f@);
    if a.is_username_deleted == Some(true) {
        push_field(&mut f, "username", String::new());
        push_field(&mut f, "username_deleted", owned("true"));
        push_field(&mut f, "is_username_deleted", owned("true"));
        assert(fields_view(f@) =~= head + seq![
            ("username"@, Seq::<char>::empty()),
            ("username_deleted"@, "true"@),
            ("is_username_deleted"@, "true"@),
        ]);
    } else {
        push_text(&mut f, "username", as_opt_str(&a.username));
        push_bool(&mut f, "is_username_deleted", a.is_username_deleted);
        assert(fields_view(f@) =~= head + (opt_text("username"@, opt_view(a.username)) + opt_bool(
            "is_username_deleted"@,
            a.is_username_deleted,
        )));
    }
    push_text(&mut f, "country_code", as_opt_str(&a.country_code));
    Ok(Some(HistoryRecord { id: lid_jid, fields: f }))
}

// ---------------------------------------------------------------------------
// Account settings.
// ---------------------------------------------------------------------------

/// Wallpaper settings of a history payload.
#[derive(Clone, Debug, PartialEq, Eq)]
pub struct HistoryWallpaper {
    pub filename: Option<String>,
    pub opacity: Option<u64>,
}

/// Automatic download settings of a history payload.
#[derive(Clone, Debug, PartialEq, Eq)]
pub struct HistoryAutoDownload {
    pub images: Option<bool>,
    pub audio: Option<bool>,
    pub video: Option<bool>,
    pub documents: Option<bool>,
}

/// Avatar settings of a history payload.
#[derive(Clone, Debug, PartialEq, Eq)]
pub struct HistoryAvatarSettings {
    pub fbid: Option<String>,
    pub password: Option<String>,
}

/// Notification settings of a history payload.
#[derive(Clone, Debug, PartialEq, Eq)]
pub struct HistoryNotificationSettings {
    pub message_vibrate: Option<String>,
    pub message_popup: Option<String>,
    pub message_light: Option<String>,
    pub low_priority_notifications: Option<bool>,
    pub reactions_muted: Option<bool>,
    pub call_vibrate: Option<String>,
}

/// The global settings of a history payload, as plain values.
#[derive(Clone, Debug, PartialEq, Eq)]
pub struct HistoryGlobalSettings {
    pub media_visibility: Option<i32>,
    pub light_theme_wallpaper: Option<HistoryWallpaper>,
    pub dark_theme_wallpaper: Option<HistoryWallpaper>,
    pub auto_download_wifi: Option<HistoryAutoDownload>,
    pub auto_download_cellular: Option<HistoryAutoDownload>,
    pub auto_download_roaming: Option<HistoryAutoDownload>,
    pub show_individual_notifications_preview: Option<bool>,
    pub show_group_notifications_preview: Option<bool>,
    pub disappearing_mode_duration: Option<i32>,
    pub disappearing_mode_timestamp: Option<i64>,
    pub avatar_user_settings: Option<HistoryAvatarSettings>,
    pub font_size: Option<i64>,
    pub security_notifications: Option<bool>,
    pub auto_unarchive_chats: Option<bool>,
    pub video_quality_mode: Option<i64>,
    pub photo_quality_mode: Option<i64>,
    pub individual_notification_settings: Option<HistoryNotificationSettings>,
    pub group_notification_settings: Option<HistoryNotificationSettings>,
    pub chat_db_lid_migration_timestamp: Option<i64>,
}

/// The field `key` with a signed number in decimal, when it is given.
pub open spec fn opt_signed(key: Seq<char>, value: Option<i64>) -> Seq<FieldView> {
    match value {
        Some(n) => seq![(key, signed_decimal(n as int))],
        None => Seq::empty(),
    }
}

pub open spec fn widened(value: Option<i32>) -> Option<i64> {
    match value {
        Some(n) => Some(n as i64),
        None => None,
    }
}

/// The schema name of a media visibility, or `UNKNOWN_` and its number.
pub open spec fn media_visibility_name(v: i32) -> Seq<char> {
    if v == 0 {
        "DEFAULT"@
    } else if v == 1 {
        "OFF"@
    } else if v == 2 {
        "ON"@
    } else {
        "UNKNOWN_"@ + signed_decimal(v as int)
    }
}

/// The schema name of an AI wait-list state, or `UNKNOWN_` and its number.
pub open spec fn wait_list_state_name(v: i32) -> Seq<char> {
    if v == 0 {
        "IN_WAITLIST"@
    } else if v == 1 {
        "AI_AVAILABLE"@
    } else {
        "UNKNOWN_"@ + signed_decimal(v as int)
    }
}

pub open spec fn wallpaper_fields(prefix: Seq<char>, w: Option<HistoryWallpaper>) -> Seq<FieldView> {
    match w {
        None => Seq::empty(),
        Some(w) => opt_text(prefix + "_filename"@, opt_view(w.filename)) + opt_number(prefix + "_opacity"@, w.opacity),
    }
}

pub open spec fn auto_download_fields(prefix: Seq<char>, a: Option<HistoryAutoDownload>) -> Seq<FieldView> {
    match a {
        None => Seq::empty(),
        Some(a) => opt_bool(prefix + "_images"@, a.images) + opt_bool(prefix + "_audio"@, a.audio) + opt_bool(
            prefix + "_video"@,
            a.video,
        ) + opt_bool(prefix + "_documents"@, a.documents),
    }
}

pub open spec fn avatar_fields(a: Option<HistoryAvatarSettings>) -> Seq<FieldView> {
    match a {
        None => Seq::empty(),
        Some(a) => opt_text("avatar_fbid"@, opt_view(a.fbid)) + if a.password matches Some(p) && p@.len() > 0 {
            seq![("avatar_password_present"@, "true"@)]
        } else {
            Seq::empty()
        },
    }
}

pub open spec fn notification_fields(prefix: Seq<char>, n: Option<HistoryNotificationSettings>) -> Seq<FieldView> {
    match n {
        None => Seq::empty(),
        Some(n) => opt_text(prefix + "_message_vibrate"@, opt_view(n.message_vibrate)) + opt_text(
            prefix + "_message_popup"@,
            opt_view(n.message_popup),
        ) + opt_text(prefix + "_message_light"@, opt_view(n.message_light)) + opt_bool(
            prefix + "_low_priority_notifications"@,
            n.low_priority_notifications,
        ) + opt_bool(prefix + "_reactions_muted"@, n.reactions_muted) + opt_text(
            prefix + "_call_vibrate"@,
            opt_view(n.call_vibrate),
        ),
    }
}

/// The account-settings fields that global settings give, in order.
pub open spec fn global_settings_fields(s: HistoryGlobalSettings) -> Seq<FieldView> {
    (match s.media_visibility {
        Some(v) => seq![("media_visibility"@, media_visibility_name(v))],
        None => Seq::empty(),
    }) + wallpaper_fields("light_theme_wallpaper"@, s.light_theme_wallpaper) + wallpaper_fields(
        "dark_theme_wallpaper"@,
        s.dark_theme_wallpaper,
    ) + auto_download_fields("auto_download_wifi"@, s.auto_download_wifi) + auto_download_fields(
        "auto_download_cellular"@,
        s.auto_download_cellular,
    ) + auto_download_fields("auto_download_roaming"@, s.auto_download_roaming) + opt_bool(
        "show_individual_notifications_preview"@,
        s.show_individual_notifications_preview,
    ) + opt_bool("show_group_notifications_preview"@, s.show_group_notifications_preview) + opt_signed(
        "disappearing_mode_duration"@,
        widened(s.disappearing_mode_duration),
    ) + opt_signed("disappearing_mode_timestamp"@, s.disappearing_mode_timestamp) + avatar_fields(
        s.avatar_user_settings,
    ) + opt_signed("font_size"@, s.font_size) + opt_bool("security_notifications"@, s.security_notifications)
        + opt_bool("auto_unarchive_chats"@, s.auto_unarchive_chats) + opt_signed(
        "video_quality_mode"@,
        s.video_quality_mode,
    ) + opt_signed("photo_quality_mode"@, s.photo_quality_mode) + notification_fields(
        "individual_notification"@,
        s.individual_notification_settings,
    ) + notification_fields("group_notification"@, s.group_notification_settings) + opt_signed(
        "chat_db_lid_migration_timestamp"@,
        s.chat_db_lid_migration_timestamp,
    )
}

fn push_signed(f: &mut Vec<(String, String)>, key: &str, value: Option<i64>)
    ensures
        fields_view(final(f)@) == fields_view(old(f)@) + opt_signed(key@, value),
{
    if let Some(n) = value {
        push_field(f, key, crate::text::i64_to_string(n));
    }
    assert(fields_view(f@) =~= fields_view(old(f)@) + opt_signed(key@, value));
}

fn widen(value: Option<i32>) -> (r: Option<i64>)
    ensures
        r == widened(value),
{
    match value {
        Some(n) => Some(n as i64),
        None => None,
    }
}

fn media_visibility_text(v: i32) -> (s: String)
    ensures
        s@ == media_visibility_name(v),
{
    if v == 0 {
        owned("DEFAULT")
    } else if v == 1 {
        owned("OFF")
    } else if v == 2 {
        owned("ON")
    } else {
        let n = crate::text::i64_to_string(v as i64);
        crate::text::concat2("UNKNOWN_", n.as_str())
    }
}

fn wait_list_state_text(v: i32) -> (s: String)
    ensures
        s@ == wait_list_state_name(v),
{
    if v == 0 {
        owned("IN_WAITLIST")
    } else if v == 1 {
        owned("AI_AVAILABLE")
    } else {
        let n = crate::text::i64_to_string(v as i64);
        crate::text::concat2("UNKNOWN_", n.as_str())
    }
}

fn push_wallpaper_fields(f: &mut Vec<(String, String)>, prefix: &str, w: &Option<HistoryWallpaper>)
    ensures
        fields_view(final(f)@) == fields_view(old(f)@) + wallpaper_fields(prefix@, *w),
{
    if let Some(w) = w {
        let k1 = crate::text::concat2(prefix, "_filename");
        push_text(f, k1.as_str(), as_opt_str(&w.filename));
        let k2 = crate::text::concat2(prefix, "_opacity");
        push_number(f, k2.as_str(), w.opacity);
    }
    assert(fields_view(f@) =~= fields_view(old(f)@) + wallpaper_fields(prefix@, *w));
}

fn push_auto_download_fields(f: &mut Vec<(String, String)>, prefix: &str, a: &Option<HistoryAutoDownload>)
    ensures
        fields_view(final(f)@) == fields_view(old(f)@) + auto_download_fields(prefix@, *a),
{
    if let Some(a) = a {
        let k1 = crate::text::concat2(prefix, "_images");
        push_bool(f, k1.as_str(), a.images);
        let k2 = crate::text::concat2(prefix, "_audio");
        push_bool(f, k2.as_str(), a.audio);
        let k3 = crate::text::concat2(prefix, "_video");
        push_bool(f, k3.as_str(), a.video);
        let k4 = crate::text::concat2(prefix, "_documents");
        push_bool(f, k4.as_str(), a.documents);
    }
    assert(fields_view(f@) =~= fields_view(old(f)@) + auto_download_fields(prefix@, *a));
}

fn push_avatar_fields(f: &mut Vec<(String, String)>, a: &Option<HistoryAvatarSettings>)
    ensures
        fields_view(final(f)@) == fields_view(old(f)@) + avatar_fields(*a),
{
    if let Some(a) = a {
        push_text(f, "avatar_fbid", as_opt_str(&a.fbid));
        let present = match &a.password {
            Some(p) => !p.as_str().is_empty(),
            None => false,
        };
        if present {
            push_field(f, "avatar_password_present", owned("true"));
        }
    }
    assert(fields_view(f@) =~= fields_view(old(f)@) + avatar_fields(*a));
}

fn push_notification_fields(f: &mut Vec<(String, String)>, prefix: &str, n: &Option<HistoryNotificationSettings>)
    ensures
        fields_view(final(f)@) == fields_view(old(f)@) + notification_fields(prefix@, *n),
{
    if let Some(n) = n {
        let k1 = crate::text::concat2(prefix, "_message_vibrate");
        push_text(f, k1.as_str(), as_opt_str(&n.message_vibrate));
        let k2 = crate::text::concat2(prefix, "_message_popup");
        push_text(f, k2.as_str(), as_opt_str(&n.message_popup));
        let k3 = crate::text::concat2(prefix, "_message_light");
        push_text(f, k3.as_str(), as_opt_str(&n.message_light));
        let k4 = crate::text::concat2(prefix, "_low_priority_notifications");
        push_bool(f, k4.as_str(), n.low_priority_notifications);
        let k5 = crate::text::concat2(prefix, "_reactions_muted");
        push_bool(f, k5.as_str(), n.reactions_muted);
        let k6 = crate::text::concat2(prefix, "_call_vibrate");
        push_text(f, k6.as_str(), as_opt_str(&n.call_vibrate));
    }
    assert(fields_view(f@) =~= fields_view(old(f)@) + notification_fields(prefix@, *n));
}

/// The account-settings fields that global settings add, in order.
#[verifier::rlimit(40)]
pub fn add_global_settings_fields(s: &HistoryGlobalSettings) -> (out: Vec<(String, String)>)
    ensures
        fields_view(out@) == global_settings_fields(*s),
{
    let mut fields: Vec<(String, String)> = Vec::new();
    let f = &mut fields;
    if let Some(v) = s.media_visibility {
        push_field(f, "media_visibility", media_visibility_text(v));
    }
    assert(fields_view(f@) =~= (match s.media_visibility {
        Some(v) => seq![("media_visibility"@, media_visibility_name(v))],
        None => Seq::<FieldView>::empty(),
    }));
    push_wallpaper_fields(f, "light_theme_wallpaper", &s.light_theme_wallpaper);
    push_wallpaper_fields(f, "dark_theme_wallpaper", &s.dark_theme_wallpaper);
    push_auto_download_fields(f, "auto_download_wifi", &s.auto_download_wifi);
    push_auto_download_fields(f, "auto_download_cellular", &s.auto_download_cellular);
    push_auto_download_fields(f, "auto_download_roaming", &s.auto_download_roaming);
    push_bool(f, "show_individual_notifications_preview", s.show_individual_notifications_preview);
    push_bool(f, "show_group_notifications_preview", s.show_group_notifications_preview);
    push_signed(f, "disappearing_mode_duration", widen(s.disappearing_mode_duration));
    push_signed(f, "disappearing_mode_timestamp", s.disappearing_mode_timestamp);
    push_avatar_fields(f, &s.avatar_user_settings);
    push_signed(f, "font_size", s.font_size);
    push_bool(f, "security_notifications", s.security_notifications);
    push_bool(f, "auto_unarchive_chats", s.auto_unarchive_chats);
    push_signed(f, "video_quality_mode", s.video_quality_mode);
    push_signed(f, "photo_quality_mode", s.photo_quality_mode);
    push_notification_fields(f, "individual_notification", &s.individual_notification_settings);
    push_notification_fields(f, "group_notification", &s.group_notification_settings);
    push_signed(f, "chat_db_lid_migration_timestamp", s.chat_db_lid_migration_timestamp);
    fields
}

/// The fields telling that a secret is present and how long it is.
pub open spec fn secret_fields(prefix: Seq<char>, b: Option<Vec<u8>>) -> Seq<FieldView> {
    match b {
        None => Seq::empty(),
        Some(b) => seq![(prefix + "_present"@, "true"@), (prefix + "_len"@, decimal_chars(b@.len()))],
    }
}

/// The fields of the account-settings record of a history payload.
pub open spec fn account_settings_fields(h: HistorySyncPayload) -> Seq<FieldView> {
    seq![("source"@, "history_sync"@)] + (match h.global_settings {
        Some(s) => global_settings_fields(s),
        None => Seq::empty(),
    }) + opt_number("thread_ds_timeframe_offset"@, h.thread_ds_timeframe_offset) + opt_text(
        "companion_meta_nonce"@,
        opt_view(h.companion_meta_nonce),
    ) + secret_fields("thread_id_user_secret"@, h.thread_id_user_secret) + secret_fields(
        "shareable_chat_identifier_encryption_key"@,
        h.shareable_chat_identifier_encryption_key,
    ) + match h.ai_wait_list_state {
        Some(v) => seq![("ai_wait_list_state"@, wait_list_state_name(v))],
        None => Seq::empty(),
    }
}

/// The account-settings record of a history payload: present when the
/// payload gives any setting beyond its source.
pub open spec fn account_settings_of(h: HistorySyncPayload) -> Option<RecordView> {
    if account_settings_fields(h).len() > 1 {
        Some(("history_sync"@, account_settings_fields(h)))
    } else {
        None
    }
}

pub open spec fn opt_record_view(o: Option<HistoryRecord>) -> Option<RecordView> {
    match o {
        Some(r) => Some(record_view(r)),
        None => None,
    }
}

fn push_secret_fields(f: &mut Vec<(String, String)>, prefix: &str, b: &Option<Vec<u8>>)
    ensures
        fields_view(final(f)@) == fields_view(old(f)@) + secret_fields(prefix@, *b),
{
    if let Some(b) = b {
        let k1 = crate::text::concat2(prefix, "_present");
        push_field(f, k1.as_str(), owned("true"));
        let k2 = crate::text::concat2(prefix, "_len");
        push_field(f, k2.as_str(), crate::text::u64_to_string(b.len() as u64));
    }
    assert(fields_view(f@) =~= fields_view(old(f)@) + secret_fields(prefix@, *b));
}

/// The account-settings record of a history payload, when it gives any
/// setting.
pub fn history_account_settings_event(h: &HistorySyncPayload) -> (r: Option<HistoryRecord>)
    ensures
        opt_record_view(r) == account_settings_of(*h),
{
    let mut fields: Vec<(String, String)> = Vec::new();
    push_field(&mut fields, "source", owned("history_sync"));
    assert(fields_view(fields@) =~= seq![("source"@, "history_sync"@)]);
    let ghost head = fields_view(fields@);
    if let Some(s) = &h.global_settings {
        let mut g = add_global_settings_fields(s);
        let ghost gv = g@;
        fields.append(&mut g);
        assert(fields_view(fields@) =~= head + fields_view(gv));
    }
    assert(fields_view(fields@) =~= head + (match h.global_settings {
        Some(s) => global_settings_fields(s),
        None => Seq::<FieldView>::empty(),
    }));
    push_number(&mut fields, "thread_ds_timeframe_offset", h.thread_ds_timeframe_offset);
    push_text(&mut fields, "companion_meta_nonce", as_opt_str(&h.companion_meta_nonce));
    push_secret_fields(&mut fields, "thread_id_user_secret", &h.thread_id_user_secret);
    push_secret_fields(&mut fields, "shareable_chat_identifier_encryption_key", &h.shareable_chat_identifier_encryption_key);
    let ghost before_ai = fields_view(fields@);
    if let Some(v) = h.ai_wait_list_state {
        push_field(&mut fields, "ai_wait_list_state", wait_list_state_text(v));
    }
    assert(fields_view(fields@) =~= before_ai + match h.ai_wait_list_state {
        Some(v) => seq![("ai_wait_list_state"@, wait_list_state_name(v))],
        None => Seq::<FieldView>::empty(),
    });
    if fields.len() > 1 {
        Some(HistoryRecord { id: owned("history_sync"), fields })
    } else {
        None
    }
}

// ---------------------------------------------------------------------------
// Processing.
// ---------------------------------------------------------------------------

pub open spec fn gathered(
    chats: Seq<HistoryRecord>,
    contacts: Seq<HistoryRecord>,
    mappings: Seq<HistoryLidPnMapping>,
) -> Gathered {
    (records_view(chats), records_view(contacts), mapping_views(mappings))
}

proof fn lemma_records_push(v: Seq<HistoryRecord>, r: HistoryRecord)
    ensures
        records_view(v.push(r)) == records_view(v).push(record_view(r)),
{
    assert(records_view(v.push(r)) =~= records_view(v).push(record_view(r)));
}

/// Adds what a conversation reports: its chat and contact records, each
/// under its limit, and its LID/phone-number pairs.
fn add_history_conversation(
    chats: &mut Vec<HistoryRecord>,
    contacts: &mut Vec<HistoryRecord>,
    mappings: &mut Vec<HistoryLidPnMapping>,
    c: &HistoryConversation,
    config: HistorySyncProcessConfig,
) -> (r: CoreResult<()>)
    ensures
        match conversation_step(gathered(old(chats)@, old(contacts)@, old(mappings)@), *c, config) {
            Ok(g) => r is Ok && gathered(final(chats)@, final(contacts)@, final(mappings)@) == g,
            Err(f) => r matches Err(e) && refusal_of(e) == f && (e is Payload || e is Protocol),
        },
{
    crate::history::validate_history_jid("history chat JID", c.id.as_str())?;
    ensure_capacity(chats.len(), config.max_chats, "history chats")?;
    let chat = history_chat_record(c);
    proof {
        lemma_records_push(chats@, chat);
    }
    chats.push(chat);
    ensure_capacity(contacts.len(), config.max_contacts, "history contacts")?;
    let contact = history_conversation_contact(c);
    proof {
        lemma_records_push(contacts@, contact);
    }
    contacts.push(contact);
    collect_conversation_mappings(
        mappings,
        c.id.as_str(),
        as_opt_str(&c.pn_jid),
        as_opt_str(&c.lid_jid),
        as_opt_str(&c.account_lid),
    )?;
    Ok(())
}

/// Adds what a conversation reports, then records its messages.
fn add_history_conversation_full(
    chats: &mut Vec<HistoryRecord>,
    contacts: &mut Vec<HistoryRecord>,
    mappings: &mut Vec<HistoryLidPnMapping>,
    messages: &mut Vec<HistoryMessageEvent>,
    updates: &mut Vec<HistoryMessageUpdate>,
    reactions: &mut Vec<HistoryReactionEvent>,
    c: &HistoryConversation,
    kind: HistorySyncKind,
    config: HistorySyncProcessConfig,
) -> (r: CoreResult<()>)
    ensures
        match conversation_full_step(
            (gathered(old(chats)@, old(contacts)@, old(mappings)@), msg_state(old(messages)@, old(updates)@, old(reactions)@)),
            *c,
            kind,
            config,
        ) {
            Ok(st) => r is Ok && (gathered(final(chats)@, final(contacts)@, final(mappings)@), msg_state(
                final(messages)@,
                final(updates)@,
                final(reactions)@,
            )) == st,
            Err(f) => r matches Err(e) && refusal_of(e) == f && (e is Payload || e is Protocol),
        },
{
    match add_history_conversation(chats, contacts, mappings, c, config) {
        Ok(_) => {},
        Err(e) => return Err(e),
    }
    push_history_sync_items(messages, updates, reactions, c.messages.as_slice(), c.id.as_str(), kind, config.max_messages)
}

/// Adds the contact record of a push name, under the contact limit.
fn add_history_pushname(
    chats: &mut Vec<HistoryRecord>,
    contacts: &mut Vec<HistoryRecord>,
    mappings: &mut Vec<HistoryLidPnMapping>,
    p: &HistoryPushname,
    config: HistorySyncProcessConfig,
) -> (r: CoreResult<()>)
    ensures
        match pushname_step(gathered(old(chats)@, old(contacts)@, old(mappings)@), *p, config) {
            Ok(g) => r is Ok && gathered(final(chats)@, final(contacts)@, final(mappings)@) == g,
            Err(f) => r matches Err(e) && refusal_of(e) == f && (e is Payload || e is Protocol),
        },
{
    ensure_capacity(contacts.len(), config.max_contacts, "history contacts")?;
    let contact = history_pushname_contact(p)?;
    proof {
        lemma_records_push(contacts@, contact);
    }
    contacts.push(contact);
    Ok(())
}

/// Adds the contact record of an account, when it names a LID, under the
/// contact limit.
fn add_history_account(
    chats: &mut Vec<HistoryRecord>,
    contacts: &mut Vec<HistoryRecord>,
    mappings: &mut Vec<HistoryLidPnMapping>,
    a: &HistoryAccount,
    config: HistorySyncProcessConfig,
) -> (r: CoreResult<()>)
    ensures
        match account_step(gathered(old(chats)@, old(contacts)@, old(mappings)@), *a, config) {
            Ok(g) => r is Ok && gathered(final(chats)@, final(contacts)@, final(mappings)@) == g,
            Err(f) => r matches Err(e) && refusal_of(e) == f && (e is Payload || e is Protocol),
        },
{
    let contact = match history_account_contact(a)? {
        Some(c) => c,
        None => {
            return Ok(());
        },
    };
    ensure_capacity(contacts.len(), config.max_contacts, "history contacts")?;
    proof {
        lemma_records_push(contacts@, contact);
    }
    contacts.push(contact);
    Ok(())
}

proof fn lemma_fold_conversations_err(
    s0: State,
    cs: Seq<HistoryConversation>,
    kind: HistorySyncKind,
    config: HistorySyncProcessConfig,
    j: int,
    f: Refusal,
)
    requires
        0 <= j <= cs.len(),
        fold_conversations(s0, cs.take(j), kind, config) == Err::<State, Refusal>(f),
    ensures
        fold_conversations(s0, cs, kind, config) == Err::<State, Refusal>(f),
    decreases cs.len() - j,
{
    if j == cs.len() {
        assert(cs.take(j) == cs);
    } else {
        assert(cs.take(j + 1).drop_last() == cs.take(j));
        lemma_fold_conversations_err(s0, cs, kind, config, j + 1, f);
    }
}

proof fn lemma_fold_pushnames_err(g: Gathered, ps: Seq<HistoryPushname>, config: HistorySyncProcessConfig, j: int, f: Refusal)
    requires
        0 <= j <= ps.len(),
        fold_pushnames(g, ps.take(j), config) == Err::<Gathered, Refusal>(f),
    ensures
        fold_pushnames(g, ps, config) == Err::<Gathered, Refusal>(f),
    decreases ps.len() - j,
{
    if j == ps.len() {
        assert(ps.take(j) == ps);
    } else {
        assert(ps.take(j + 1).drop_last() == ps.take(j));
        lemma_fold_pushnames_err(g, ps, config, j + 1, f);
    }
}

proof fn lemma_fold_accounts_err(g: Gathered, accs: Seq<HistoryAccount>, config: HistorySyncProcessConfig, j: int, f: Refusal)
    requires
        0 <= j <= accs.len(),
        fold_accounts(g, accs.take(j), config) == Err::<Gathered, Refusal>(f),
    ensures
        fold_accounts(g, accs, config) == Err::<Gathered, Refusal>(f),
    decreases accs.len() - j,
{
    if j == accs.len() {
        assert(accs.take(j) == accs);
    } else {
        assert(accs.take(j + 1).drop_last() == accs.take(j));
        lemma_fold_accounts_err(g, accs, config, j + 1, f);
    }
}

/// The first invalid entry decides the text of the error.
proof fn lemma_direct_fault_at(entries: Seq<(Option<String>, Option<String>)>, i: int)
    requires
        0 <= i < entries.len(),
        direct_entries_ok(entries.take(i)),
        entries[i] matches (Some(pn), Some(lid)) && !(jid_valid(pn@) && jid_valid(lid@)),
    ensures
        direct_fault(entries) == mapping_fault(entries[i].1.unwrap()@, entries[i].0.unwrap()@),
    decreases i,
{
    if i > 0 {
        let rest = entries.drop_first();
        assert(entries.take(i)[0] == entries[0]);
        assert(direct_entries_ok(rest.take(i - 1))) by {
            assert forall|q: int| 0 <= q < i - 1 implies match #[trigger] rest.take(i - 1)[q] {
                (Some(pn), Some(lid)) => jid_valid(pn@) && jid_valid(lid@),
                _ => true,
            } by {
                assert(rest.take(i - 1)[q] == entries.take(i)[q + 1]);
            }
        }
        assert(rest[i - 1] == entries[i]);
        lemma_direct_fault_at(rest, i - 1);
    }
}

proof fn lemma_sync_kind_of(k: HistorySyncKind)
    ensures
        sync_kind_of(crate::history::sync_kind_number(k)) == Some(k),
{
}

/// Why a payload is refused, if it is: by its kind-specific sections and
/// settings first, then its call log, its past participants, its recent
/// stickers.
pub open spec fn history_refusal(h: HistorySyncPayload, config: HistorySyncProcessConfig) -> Option<Refusal> {
    match processed_history(h, config) {
        Err(f) => Some(f),
        Ok(_) => match fold_calls(Seq::empty(), h.call_log_records@, config.max_messages as nat) {
            Err(f) => Some(f),
            Ok(_) => match fold_past(
                Seq::empty(),
                0,
                h.past_participants@,
                config.max_chats as nat,
                config.max_messages as nat,
            ) {
                Err(f) => Some(f),
                Ok(_) => match fold_stickers(Seq::empty(), h.recent_stickers@, config.max_messages as nat) {
                    Err(f) => Some(f),
                    Ok(_) => None,
                },
            },
        },
    }
}

/// What a payload gives beside its kind-specific sections: call records,
/// past-participant group records and recent-sticker records.
fn process_history_extras(history: &HistorySyncPayload, config: HistorySyncProcessConfig) -> (r: CoreResult<
    (Vec<HistoryCallEvent>, Vec<HistoryRecord>, Vec<HistoryStickerEvent>),
>)
    ensures
        match r {
            Ok((calls, groups, stickers)) => {
                &&& fold_calls(Seq::empty(), history.call_log_records@, config.max_messages as nat) == Ok::<
                    Seq<CallView>,
                    Refusal,
                >(call_views(calls@))
                &&& fold_past(
                    Seq::empty(),
                    0,
                    history.past_participants@,
                    config.max_chats as nat,
                    config.max_messages as nat,
                ) matches Ok((g, _)) && g == records_view(groups@)
                &&& fold_stickers(Seq::empty(), history.recent_stickers@, config.max_messages as nat) == Ok::<
                    Seq<StickerView>,
                    Refusal,
                >(sticker_views(stickers@))
            },
            Err(e) => (e is Payload || e is Protocol) && match fold_calls(
                Seq::empty(),
                history.call_log_records@,
                config.max_messages as nat,
            ) {
                Err(f) => refusal_of(e) == f,
                Ok(_) => match fold_past(
                    Seq::empty(),
                    0,
                    history.past_participants@,
                    config.max_chats as nat,
                    config.max_messages as nat,
                ) {
                    Err(f) => refusal_of(e) == f,
                    Ok(_) => fold_stickers(Seq::empty(), history.recent_stickers@, config.max_messages as nat)
                        == Err::<Seq<StickerView>, Refusal>(refusal_of(e)),
                },
            },
        },
{
    let mut calls: Vec<HistoryCallEvent> = Vec::new();
    assert(call_views(calls@) =~= Seq::<CallView>::empty());
    match push_history_call_log_events(&mut calls, history.call_log_records.as_slice(), config.max_messages) {
        Ok(_) => {},
        Err(e) => return Err(e),
    }
    let mut groups: Vec<HistoryRecord> = Vec::new();
    assert(records_view(groups@) =~= Seq::<RecordView>::empty());
    match push_history_past_participant_events(
        &mut groups,
        history.past_participants.as_slice(),
        config.max_chats,
        config.max_messages,
    ) {
        Ok(_) => {},
        Err(e) => return Err(e),
    }
    let mut recent_stickers: Vec<HistoryStickerEvent> = Vec::new();
    assert(sticker_views(recent_stickers@) =~= Seq::<StickerView>::empty());
    match push_history_recent_sticker_events(
        &mut recent_stickers,
        history.recent_stickers.as_slice(),
        config.max_messages,
    ) {
        Ok(_) => {},
        Err(e) => return Err(e),
    }
    Ok((calls, groups, recent_stickers))
}

/// Processes a decoded history payload: its kind decides which of its
/// conversations, push names, accounts and status messages are read.
/// Conversations give chat and contact records, LID/phone-number pairs and
/// the records of their messages; push names and accounts give contact
/// records; messages give message records and the updates and reactions
/// kept beside them. Every payload then gives its call, past-participant,
/// recent-sticker and account-settings records. Every record kind stays
/// under its limit.
#[verifier::rlimit(60)]
#[verifier::spinoff_prover]
pub fn process_history_sync(history: &HistorySyncPayload, config: HistorySyncProcessConfig) -> (r: CoreResult<
    ProcessedHistorySync,
>)
    ensures
        match r {
            Ok(p) => {
                &&& processed_history(*history, config) == Ok::<
                    (HistorySyncKind, Gathered, Option<(u32, Option<u64>)>, MsgState),
                    Refusal,
                >(
                    (
                        p.sync_type,
                        gathered(p.chats@, p.contacts@, p.lid_pn_mappings@),
                        p.default_disappearing_mode,
                        msg_state(p.messages@, p.message_updates@, p.reactions@),
                    ),
                )
                &&& fold_calls(Seq::empty(), history.call_log_records@, config.max_messages as nat) == Ok::<
                    Seq<CallView>,
                    Refusal,
                >(call_views(p.calls@))
                &&& fold_past(Seq::empty(), 0, history.past_participants@, config.max_chats as nat, config.max_messages as nat)
                    matches Ok((groups, _)) && groups == records_view(p.groups@)
                &&& fold_stickers(Seq::empty(), history.recent_stickers@, config.max_messages as nat) == Ok::<
                    Seq<StickerView>,
                    Refusal,
                >(sticker_views(p.recent_stickers@))
                &&& p.progress == history.progress
                &&& p.chunk_order == history.chunk_order
                &&& p.is_latest == config.is_latest
                &&& opt_record_view(p.account_settings) == account_settings_of(*history)
            },
            Err(e) => (e is Payload || e is Protocol) && history_refusal(*history, config) == Some(refusal_of(e)),
        },
{
    let kind = HistorySyncKind::from_wire_number(history.sync_type)?;
    proof {
        lemma_sync_kind_of(kind);
    }
    let (duration, timestamp) = match &history.global_settings {
        Some(g) => (g.disappearing_mode_duration, g.disappearing_mode_timestamp),
        None => (None, None),
    };
    let mode = history_default_disappearing_mode(duration, timestamp)?;
    let mut mappings: Vec<HistoryLidPnMapping> = Vec::new();
    assert(mapping_views(mappings@) =~= Seq::<(Seq<char>, Seq<char>)>::empty());
    match collect_direct_mappings(&mut mappings, history.phone_number_to_lid_mappings.as_slice()) {
        Ok(_) => {},
        Err(e) => {
            proof {
                let entries = history.phone_number_to_lid_mappings@;
                let i = choose|i: int|
                    0 <= i < entries.len() && direct_entries_ok(entries.take(i)) && (#[trigger] entries[i] matches (
                    Some(pn), Some(lid)) && !(jid_valid(pn@) && jid_valid(lid@)) && (e matches CoreError::Protocol(m)
                    && m@ == mapping_fault(lid@, pn@)));
                lemma_direct_fault_at(entries, i);
            }
            return Err(e);
        },
    }
    let mut chats: Vec<HistoryRecord> = Vec::new();
    let mut contacts: Vec<HistoryRecord> = Vec::new();
    let mut messages: Vec<HistoryMessageEvent> = Vec::new();
    let mut updates: Vec<HistoryMessageUpdate> = Vec::new();
    let mut reactions: Vec<HistoryReactionEvent> = Vec::new();
    let ghost s0: State = (
        (Seq::empty(), Seq::empty(), direct_pairs(Seq::empty(), history.phone_number_to_lid_mappings@)),
        (Seq::empty(), Seq::empty(), Seq::empty()),
    );
    assert((gathered(chats@, contacts@, mappings@), msg_state(messages@, updates@, reactions@)) == s0) by {
        assert(records_view(chats@) =~= Seq::<RecordView>::empty());
        assert(msg_state(messages@, updates@, reactions@).0 =~= Seq::<MessageView>::empty());
        assert(msg_state(messages@, updates@, reactions@).1 =~= Seq::<UpdateView>::empty());
        assert(msg_state(messages@, updates@, reactions@).2 =~= Seq::<ReactionView>::empty());
    }
    let sections = kind.sections();
    if sections.conversations {
        let mut i: usize = 0;
        while i < history.conversations.len()
            invariant
                0 <= i <= history.conversations@.len(),
                reads_conversations(kind),
                fold_conversations(s0, history.conversations@.take(i as int), kind, config) == Ok::<State, Refusal>(
                    (gathered(chats@, contacts@, mappings@), msg_state(messages@, updates@, reactions@)),
                ),
                sync_kind_of(history.sync_type as int) == Some(kind),
                disappearing_setting(settings_duration(*history), settings_timestamp(*history))
                    == Ok::<Option<(u32, Option<u64>)>, Seq<char>>(mode),
                direct_entries_ok(history.phone_number_to_lid_mappings@),
                s0 == ((Seq::<RecordView>::empty(), Seq::<RecordView>::empty(), direct_pairs(
                    Seq::empty(),
                    history.phone_number_to_lid_mappings@,
                )), (Seq::<MessageView>::empty(), Seq::<UpdateView>::empty(), Seq::<ReactionView>::empty())),
                sections.conversations == reads_conversations(kind),
                sections.pushnames == reads_pushnames(kind),
                sections.accounts == reads_accounts(kind),
            decreases history.conversations@.len() - i,
        {
            let ghost cs = history.conversations@;
            assert(cs.take(i as int + 1).drop_last() == cs.take(i as int));
            assert(cs.take(i as int + 1).last() == cs[i as int]);
            match add_history_conversation_full(
                &mut chats,
                &mut contacts,
                &mut mappings,
                &mut messages,
                &mut updates,
                &mut reactions,
                &history.conversations[i],
                kind,
                config,
            ) {
                Ok(_) => {},
                Err(e) => {
                    proof {
                        lemma_fold_conversations_err(s0, cs, kind, config, i as int + 1, refusal_of(e));
                    }
                    return Err(e);
                },
            }
            i = i + 1;
        }
        assert(history.conversations@.take(i as int) == history.conversations@);
    }
    let ghost s1: State = (gathered(chats@, contacts@, mappings@), msg_state(messages@, updates@, reactions@));
    if sections.pushnames {
        let mut i: usize = 0;
        assert(history.pushnames@.take(0) == Seq::<HistoryPushname>::empty());
        while i < history.pushnames.len()
            invariant
                0 <= i <= history.pushnames@.len(),
                reads_pushnames(kind),
                fold_pushnames(s1.0, history.pushnames@.take(i as int), config) == Ok::<Gathered, Refusal>(
                    gathered(chats@, contacts@, mappings@),
                ),
                msg_state(messages@, updates@, reactions@) == s1.1,
                sync_kind_of(history.sync_type as int) == Some(kind),
                disappearing_setting(settings_duration(*history), settings_timestamp(*history))
                    == Ok::<Option<(u32, Option<u64>)>, Seq<char>>(mode),
                direct_entries_ok(history.phone_number_to_lid_mappings@),
                s0 == ((Seq::<RecordView>::empty(), Seq::<RecordView>::empty(), direct_pairs(
                    Seq::empty(),
                    history.phone_number_to_lid_mappings@,
                )), (Seq::<MessageView>::empty(), Seq::<UpdateView>::empty(), Seq::<ReactionView>::empty())),
                sections.conversations == reads_conversations(kind),
                sections.pushnames == reads_pushnames(kind),
                sections.accounts == reads_accounts(kind),
                (if reads_conversations(kind) {
                    fold_conversations(s0, history.conversations@, kind, config)
                } else {
                    Ok(s0)
                }) == Ok::<State, Refusal>(s1),
            decreases history.pushnames@.len() - i,
        {
            let ghost ps = history.pushnames@;
            assert(ps.take(i as int + 1).drop_last() == ps.take(i as int));
            assert(ps.take(i as int + 1).last() == ps[i as int]);
            match add_history_pushname(&mut chats, &mut contacts, &mut mappings, &history.pushnames[i], config) {
                Ok(_) => {},
                Err(e) => {
                    proof {
                        lemma_fold_pushnames_err(s1.0, ps, config, i as int + 1, refusal_of(e));
                    }
                    return Err(e);
                },
            }
            i = i + 1;
        }
        assert(history.pushnames@.take(i as int) == history.pushnames@);
    }
    let ghost s2: State = (gathered(chats@, contacts@, mappings@), msg_state(messages@, updates@, reactions@));
    if sections.accounts {
        let mut i: usize = 0;
        assert(history.accounts@.take(0) == Seq::<HistoryAccount>::empty());
        while i < history.accounts.len()
            invariant
                0 <= i <= history.accounts@.len(),
                reads_accounts(kind),
                fold_accounts(s2.0, history.accounts@.take(i as int), config) == Ok::<Gathered, Refusal>(
                    gathered(chats@, contacts@, mappings@),
                ),
                msg_state(messages@, updates@, reactions@) == s2.1,
                sync_kind_of(history.sync_type as int) == Some(kind),
                disappearing_setting(settings_duration(*history), settings_timestamp(*history))
                    == Ok::<Option<(u32, Option<u64>)>, Seq<char>>(mode),
                direct_entries_ok(history.phone_number_to_lid_mappings@),
                s0 == ((Seq::<RecordView>::empty(), Seq::<RecordView>::empty(), direct_pairs(
                    Seq::empty(),
                    history.phone_number_to_lid_mappings@,
                )), (Seq::<MessageView>::empty(), Seq::<UpdateView>::empty(), Seq::<ReactionView>::empty())),
                sections.conversations == reads_conversations(kind),
                sections.pushnames == reads_pushnames(kind),
                sections.accounts == reads_accounts(kind),
                (if reads_conversations(kind) {
                    fold_conversations(s0, history.conversations@, kind, config)
                } else {
                    Ok(s0)
                }) == Ok::<State, Refusal>(s1),
                (if reads_pushnames(kind) {
                    match fold_pushnames(s1.0, history.pushnames@, config) {
                        Err(e) => Err(e),
                        Ok(g) => Ok((g, s1.1)),
                    }
                } else {
                    Ok(s1)
                }) == Ok::<State, Refusal>(s2),
            decreases history.accounts@.len() - i,
        {
            let ghost accs = history.accounts@;
            assert(accs.take(i as int + 1).drop_last() == accs.take(i as int));
            assert(accs.take(i as int + 1).last() == accs[i as int]);
            match add_history_account(&mut chats, &mut contacts, &mut mappings, &history.accounts[i], config) {
                Ok(_) => {},
                Err(e) => {
                    proof {
                        lemma_fold_accounts_err(s2.0, accs, config, i as int + 1, refusal_of(e));
                    }
                    return Err(e);
                },
            }
            i = i + 1;
        }
        assert(history.accounts@.take(i as int) == history.accounts@);
    }
    let reads_status = match kind {
        HistorySyncKind::PushName => false,
        _ => true,
    };
    if reads_status {
        match push_history_statuses(
            &mut messages,
            &mut updates,
            &mut reactions,
            history.status_v3_messages.as_slice(),
            kind,
            config.max_messages,
        ) {
            Ok(_) => {},
            Err(e) => return Err(e),
        }
    }
    let (calls, groups, recent_stickers) = match process_history_extras(history, config) {
        Ok(x) => x,
        Err(e) => return Err(e),
    };
    Ok(
        ProcessedHistorySync {
            sync_type: kind,
            progress: history.progress,
            chunk_order: history.chunk_order,
            is_latest: config.is_latest,
            chats,
            contacts,
            lid_pn_mappings: mappings,
            default_disappearing_mode: mode,
            messages,
            message_updates: updates,
            reactions,
            calls,
            groups,
            recent_stickers,
            account_settings: history_account_settings_event(history),
        },
    )
}

// ---------------------------------------------------------------------------
// Limits.
// ---------------------------------------------------------------------------

/// Chats, contacts, messages, updates and reactions each within their
/// configured limits.
pub open spec fn state_within(st: State, config: HistorySyncProcessConfig) -> bool {
    &&& st.0.0.len() <= config.max_chats
    &&& st.0.1.len() <= config.max_contacts
    &&& msg_within(st.1, config.max_messages as nat)
}

proof fn lemma_fold_conversations_within(
    st: State,
    cs: Seq<HistoryConversation>,
    kind: HistorySyncKind,
    config: HistorySyncProcessConfig,
)
    requires
        state_within(st, config),
    ensures
        fold_conversations(st, cs, kind, config) matches Ok(s) ==> state_within(s, config),
    decreases cs.len(),
{
    if cs.len() > 0 {
        lemma_fold_conversations_within(st, cs.drop_last(), kind, config);
        if let Ok(h) = fold_conversations(st, cs.drop_last(), kind, config) {
            if let Ok(g) = conversation_step(h.0, cs.last(), config) {
                lemma_fold_items_within(h.1, cs.last().messages@, cs.last().id@, kind, config.max_messages as nat);
            }
        }
    }
}

proof fn lemma_fold_pushnames_within(g: Gathered, ps: Seq<HistoryPushname>, config: HistorySyncProcessConfig)
    requires
        g.0.len() <= config.max_chats,
        g.1.len() <= config.max_contacts,
    ensures
        fold_pushnames(g, ps, config) matches Ok(h) ==> h.0.len() <= config.max_chats && h.1.len() <= config.max_contacts,
    decreases ps.len(),
{
    if ps.len() > 0 {
        lemma_fold_pushnames_within(g, ps.drop_last(), config);
    }
}

proof fn lemma_fold_accounts_within(g: Gathered, accs: Seq<HistoryAccount>, config: HistorySyncProcessConfig)
    requires
        g.0.len() <= config.max_chats,
        g.1.len() <= config.max_contacts,
    ensures
        fold_accounts(g, accs, config) matches Ok(h) ==> h.0.len() <= config.max_chats && h.1.len() <= config.max_contacts,
    decreases accs.len(),
{
    if accs.len() > 0 {
        lemma_fold_accounts_within(g, accs.drop_last(), config);
    }
}

/// Processing a payload keeps every kind of record under its configured
/// limit: at most `max_chats` chats, `max_contacts` contacts, and
/// `max_messages` messages, message updates and reactions.
pub proof fn lemma_history_within_limits(h: HistorySyncPayload, config: HistorySyncProcessConfig)
    ensures
        processed_history(h, config) matches Ok((_, g, _, ms)) ==> {
            &&& g.0.len() <= config.max_chats
            &&& g.1.len() <= config.max_contacts
            &&& ms.0.len() <= config.max_messages
            &&& ms.1.len() <= config.max_messages
            &&& ms.2.len() <= config.max_messages
        },
{
    if let Some(k) = sync_kind_of(h.sync_type as int) {
        let s0: State = (
            (Seq::empty(), Seq::empty(), direct_pairs(Seq::empty(), h.phone_number_to_lid_mappings@)),
            (Seq::empty(), Seq::empty(), Seq::empty()),
        );
        assert(state_within(s0, config));
        lemma_fold_conversations_within(s0, h.conversations@, k, config);
        let s1 = if reads_conversations(k) {
            fold_conversations(s0, h.conversations@, k, config)
        } else {
            Ok(s0)
        };
        if let Ok(s) = s1 {
            lemma_fold_pushnames_within(s.0, h.pushnames@, config);
            let s2 = if reads_pushnames(k) {
                match fold_pushnames(s.0, h.pushnames@, config) {
                    Err(e) => Err(e),
                    Ok(g) => Ok((g, s.1)),
                }
            } else {
                Ok(s)
            };
            if let Ok(t) = s2 {
                lemma_fold_accounts_within(t.0, h.accounts@, config);
                let s3 = if reads_accounts(k) {
                    match fold_accounts(t.0, h.accounts@, config) {
                        Err(e) => Err(e),
                        Ok(g) => Ok((g, t.1)),
                    }
                } else {
                    Ok(t)
                };
                if let Ok(u) = s3 {
                    lemma_fold_statuses_within(u.1, h.status_v3_messages@, k, config.max_messages as nat);
                }
            }
        }
    }
}

} // verus!
