//! Message add-ons of a history payload (reactions, poll votes, event
//! responses and pins kept beside a message): each becomes an update of the
//! message it targets.

use crate::error::{CoreError, CoreResult};
use crate::history::processing::{
    bool_string, fields_view, push_field, FieldView,
};
use crate::history::{history_jid_fault, non_negative_i64_to_u64, validate_history_jid};
use crate::jid::jid_valid;
use crate::key::{EventKeyView, MessageEventKey, MessageKey, MessageKeyView};
use crate::message::bool_text;
use crate::text::{decimal_chars, owned, signed_decimal};
use vstd::prelude::*;

verus! {

/// The vote of a poll update, as sent: encrypted.
#[derive(Clone, Debug, PartialEq, Eq)]
pub struct HistoryPollVote {
    pub enc_payload: Option<Vec<u8>>,
    pub enc_iv: Option<Vec<u8>>,
}

/// A poll update carried by an add-on message.
#[derive(Clone, Debug, PartialEq, Eq)]
pub struct HistoryPollUpdateContent {
    pub poll_creation_message_key: Option<MessageKey>,
    pub vote: Option<HistoryPollVote>,
    pub metadata_present: bool,
}

/// An encrypted event response carried by an add-on message.
#[derive(Clone, Debug, PartialEq, Eq)]
pub struct HistoryEncEventResponse {
    pub event_creation_message_key: Option<MessageKey>,
    pub enc_payload: Option<Vec<u8>>,
    pub enc_iv: Option<Vec<u8>>,
}

/// A pin carried by an add-on message.
#[derive(Clone, Debug, PartialEq, Eq)]
pub struct HistoryPinContent {
    pub key: Option<MessageKey>,
    pub pin_type: Option<i32>,
}

/// A reaction carried by an add-on message.
#[derive(Clone, Debug, PartialEq, Eq)]
pub struct HistoryReactionContent {
    pub key: Option<MessageKey>,
}

/// What is read of the message of an add-on, once unwrapped: which kinds
/// of content it holds, and the poll update, event response, reaction and
/// pin it carries.
#[derive(Clone, Debug, PartialEq, Eq)]
pub struct HistoryAddOnMessage {
    /// A reaction, plain or encrypted.
    pub reaction_present: bool,
    /// A poll creation of any version, or a poll update.
    pub poll_present: bool,
    pub event_present: bool,
    /// An image, video, round video, audio, document, sticker or album.
    pub media_present: bool,
    pub poll_update: Option<HistoryPollUpdateContent>,
    pub enc_event_response: Option<HistoryEncEventResponse>,
    pub reaction: Option<HistoryReactionContent>,
    pub pin: Option<HistoryPinContent>,
}

/// A response to an event.
#[derive(Clone, Debug, PartialEq, Eq)]
pub struct HistoryEventResponseMessage {
    pub response: Option<i32>,
    pub extra_guest_count: Option<i32>,
    pub timestamp_ms: Option<i64>,
}

/// The legacy message of an add-on: a plain poll vote (its selected
/// options) or event response.
#[derive(Clone, Debug, PartialEq, Eq)]
pub struct HistoryLegacyAddOn {
    pub poll_vote_selected_options: Option<Vec<Vec<u8>>>,
    pub event_response_message: Option<HistoryEventResponseMessage>,
}

/// How long an add-on lasts.
#[derive(Clone, Debug, PartialEq, Eq)]
pub struct HistoryAddOnContext {
    pub duration_in_secs: Option<u32>,
    pub expiry_type: Option<i32>,
}

/// A message add-on of a history payload, as plain values.
#[derive(Clone, Debug, PartialEq, Eq)]
pub struct HistoryMessageAddOn {
    pub message_add_on_type: Option<i32>,
    pub message_add_on: Option<HistoryAddOnMessage>,
    pub sender_timestamp_ms: Option<i64>,
    pub status: Option<i32>,
    pub add_on_context_info: Option<HistoryAddOnContext>,
    pub message_add_on_key: Option<MessageKey>,
    pub legacy_message: Option<HistoryLegacyAddOn>,
    pub server_timestamp_ms: Option<i64>,
}

/// An update of a message: the message it targets, its time and its
/// fields, in the order they were set.
#[derive(Clone, Debug, PartialEq, Eq)]
pub struct HistoryMessageUpdate {
    pub key: MessageEventKey,
    pub timestamp: Option<u64>,
    pub fields: Vec<(String, String)>,
}

/// An update as values: target, time and fields.
pub type UpdateView = (EventKeyView, Option<u64>, Seq<FieldView>);

pub open spec fn update_view(u: HistoryMessageUpdate) -> UpdateView {
    (u.key@, u.timestamp, fields_view(u.fields@))
}

// ---------------------------------------------------------------------------
// Target key.
// ---------------------------------------------------------------------------

/// The message a history update targets, from a message key: its chat JID
/// must be valid, its id not empty, and its participant, when not empty,
/// valid.
pub open spec fn update_target(k: MessageKeyView) -> Result<EventKeyView, Seq<char>> {
    match k.remote_jid {
        None => Err("history update target missing remote JID"@),
        Some(j) => if !jid_valid(j) {
            Err(history_jid_fault("history update target remote JID"@, j))
        } else if !(k.id matches Some(id) && id.len() > 0) {
            Err("history update target missing id"@)
        } else if (k.participant matches Some(p) && p.len() > 0 && !jid_valid(p)) {
            Err(history_jid_fault("history update target participant JID"@, k.participant.unwrap()))
        } else {
            Ok(
                EventKeyView {
                    remote_jid: j,
                    id: k.id.unwrap(),
                    participant: if (k.participant matches Some(p) && p.len() > 0) {
                        k.participant
                    } else {
                        None
                    },
                },
            )
        },
    }
}

/// The message an add-on targets: its own key, else the key of the poll,
/// event, reaction or pin its message carries (the first that has one).
pub open spec fn add_on_target(a: HistoryMessageAddOn) -> Result<EventKeyView, Seq<char>> {
    if a.message_add_on_key is Some {
        update_target(a.message_add_on_key.unwrap()@)
    } else if a.message_add_on is Some {
        let m = a.message_add_on.unwrap();
        if (m.poll_update matches Some(p) && p.poll_creation_message_key is Some) {
            update_target(m.poll_update.unwrap().poll_creation_message_key.unwrap()@)
        } else if (m.enc_event_response matches Some(e) && e.event_creation_message_key is Some) {
            update_target(m.enc_event_response.unwrap().event_creation_message_key.unwrap()@)
        } else if (m.reaction matches Some(r) && r.key is Some) {
            update_target(m.reaction.unwrap().key.unwrap()@)
        } else if (m.pin matches Some(p) && p.key is Some) {
            update_target(m.pin.unwrap().key.unwrap()@)
        } else {
            Err("history message add-on missing target key"@)
        }
    } else {
        Err("history message add-on missing target key"@)
    }
}

/// The message a history update targets, from a message key.
pub fn history_message_event_key(k: &MessageKey) -> (r: CoreResult<MessageEventKey>)
    ensures
        match r {
            Ok(key) => update_target(k@) == Ok::<EventKeyView, Seq<char>>(key@),
            Err(e) => e is Protocol && update_target(k@) == Err::<EventKeyView, Seq<char>>(e.detail()),
        },
{
    let remote = match &k.remote_jid {
        None => return Err(CoreError::Protocol(owned("history update target missing remote JID"))),
        Some(j) => j,
    };
    match validate_history_jid("history update target remote JID", remote.as_str()) {
        Ok(_) => {},
        Err(e) => return Err(e),
    }
    let id = match &k.id {
        Some(id) => if id.as_str().is_empty() {
            return Err(CoreError::Protocol(owned("history update target missing id")));
        } else {
            id
        },
        None => return Err(CoreError::Protocol(owned("history update target missing id"))),
    };
    let participant: Option<&str> = match &k.participant {
        Some(p) => if p.as_str().is_empty() {
            None
        } else {
            match validate_history_jid("history update target participant JID", p.as_str()) {
                Ok(_) => {},
                Err(e) => return Err(e),
            }
            Some(p.as_str())
        },
        None => None,
    };
    let key = MessageEventKey::new(remote.as_str(), id.as_str(), participant);
    assert(key@ =~= match update_target(k@) {
        Ok(v) => v,
        Err(_) => key@,
    });
    Ok(key)
}

fn add_on_target_key(a: &HistoryMessageAddOn) -> (r: CoreResult<MessageEventKey>)
    ensures
        match r {
            Ok(key) => add_on_target(*a) == Ok::<EventKeyView, Seq<char>>(key@),
            Err(e) => e is Protocol && add_on_target(*a) == Err::<EventKeyView, Seq<char>>(e.detail()),
        },
{
    if let Some(k) = &a.message_add_on_key {
        return history_message_event_key(k);
    }
    if let Some(m) = &a.message_add_on {
        if let Some(p) = &m.poll_update {
            if let Some(k) = &p.poll_creation_message_key {
                return history_message_event_key(k);
            }
        }
        if let Some(e) = &m.enc_event_response {
            if let Some(k) = &e.event_creation_message_key {
                return history_message_event_key(k);
            }
        }
        if let Some(rc) = &m.reaction {
            if let Some(k) = &rc.key {
                return history_message_event_key(k);
            }
        }
        if let Some(p) = &m.pin {
            if let Some(k) = &p.key {
                return history_message_event_key(k);
            }
        }
    }
    Err(CoreError::Protocol(owned("history message add-on missing target key")))
}

// ---------------------------------------------------------------------------
// Fields.
// ---------------------------------------------------------------------------

pub open spec fn number_or_zero(v: Option<i32>) -> i32 {
    match v {
        Some(n) => n,
        None => 0,
    }
}

/// The name of an add-on type (none counts as undefined).
pub open spec fn add_on_type_name(t: Option<i32>) -> Seq<char> {
    let v = number_or_zero(t);
    if v == 1 {
        "reaction"@
    } else if v == 2 {
        "event_response"@
    } else if v == 3 {
        "poll_update"@
    } else if v == 4 {
        "pin_in_chat"@
    } else {
        "undefined"@
    }
}

/// The name of an event response (none counts as unknown).
pub open spec fn event_response_name(r: Option<i32>) -> Seq<char> {
    let v = number_or_zero(r);
    if v == 1 {
        "going"@
    } else if v == 2 {
        "not_going"@
    } else if v == 3 {
        "maybe"@
    } else {
        "unknown"@
    }
}

/// The action of a pin (none counts as unknown).
pub open spec fn pin_action_name(t: Option<i32>) -> Seq<char> {
    let v = number_or_zero(t);
    if v == 1 {
        "pin"@
    } else if v == 2 {
        "unpin"@
    } else {
        "unknown"@
    }
}

/// The kind of stanza a message is sent in: reaction, poll, event, media,
/// else text.
pub open spec fn stanza_type_name(m: HistoryAddOnMessage) -> Seq<char> {
    if m.reaction_present {
        "reaction"@
    } else if m.poll_present {
        "poll"@
    } else if m.event_present {
        "event"@
    } else if m.media_present {
        "media"@
    } else {
        "text"@
    }
}

pub open spec fn one(key: Seq<char>, value: Seq<char>) -> Seq<FieldView> {
    seq![(key, value)]
}

/// The field `key` with the length of some bytes, when they are given.
pub open spec fn bytes_len_field(key: Seq<char>, b: Option<Vec<u8>>) -> Seq<FieldView> {
    match b {
        Some(b) => one(key, decimal_chars(b@.len())),
        None => Seq::empty(),
    }
}

pub open spec fn poll_fields(p: Option<HistoryPollUpdateContent>) -> Seq<FieldView> {
    match p {
        None => Seq::empty(),
        Some(p) => one("poll_update"@, "true"@) + one("vote_encrypted"@, bool_text(p.vote is Some)) + one(
            "metadata_present"@,
            bool_text(p.metadata_present),
        ) + match p.vote {
            Some(v) => bytes_len_field("encrypted_vote_payload_bytes"@, v.enc_payload) + bytes_len_field(
                "encrypted_vote_iv_bytes"@,
                v.enc_iv,
            ),
            None => Seq::empty(),
        },
    }
}

pub open spec fn enc_event_fields(e: Option<HistoryEncEventResponse>) -> Seq<FieldView> {
    match e {
        None => Seq::empty(),
        Some(e) => one("event_response"@, "true"@) + one("response_encrypted"@, bool_text(e.enc_payload is Some))
            + bytes_len_field("encrypted_event_response_payload_bytes"@, e.enc_payload) + bytes_len_field(
            "encrypted_event_response_iv_bytes"@,
            e.enc_iv,
        ),
    }
}

/// The fields that the message of an add-on gives.
pub open spec fn add_on_message_fields(m: HistoryAddOnMessage) -> Seq<FieldView> {
    one("add_on_stanza_type"@, stanza_type_name(m)) + poll_fields(m.poll_update) + enc_event_fields(
        m.enc_event_response,
    ) + match m.pin {
        Some(p) => one("pin_action"@, pin_action_name(p.pin_type)),
        None => Seq::empty(),
    } + if m.reaction is Some {
        one("reaction"@, "true"@)
    } else {
        Seq::empty()
    }
}

/// The fields of an event response of a legacy message; `set` tells
/// whether the event-response flag is already set.
pub open spec fn event_response_fields(r: HistoryEventResponseMessage, set: bool) -> Seq<FieldView> {
    (if set {
        Seq::empty()
    } else {
        one("event_response"@, "true"@)
    }) + one("response"@, event_response_name(r.response)) + match r.extra_guest_count {
        Some(n) => one("extra_guest_count"@, signed_decimal(n as int)),
        None => Seq::empty(),
    } + match r.timestamp_ms {
        Some(t) => one("response_timestamp_ms"@, decimal_chars(t as nat)),
        None => Seq::empty(),
    }
}

/// The fields that the legacy message of an add-on gives; `poll_set` and
/// `event_set` tell whether the poll-update and event-response flags are
/// already set.
pub open spec fn legacy_fields(l: HistoryLegacyAddOn, poll_set: bool, event_set: bool) -> Seq<FieldView> {
    (match l.poll_vote_selected_options {
        Some(o) => (if poll_set {
            Seq::empty()
        } else {
            one("poll_update"@, "true"@)
        }) + one("selected_options_count"@, decimal_chars(o@.len())),
        None => Seq::empty(),
    }) + match l.event_response_message {
        Some(r) => event_response_fields(r, event_set),
        None => Seq::empty(),
    }
}

pub open spec fn sets_poll(a: HistoryMessageAddOn) -> bool {
    a.message_add_on matches Some(m) && m.poll_update is Some
}

pub open spec fn sets_event(a: HistoryMessageAddOn) -> bool {
    a.message_add_on matches Some(m) && m.enc_event_response is Some
}

/// The fields of the update of an add-on (whose times are not negative).
pub open spec fn add_on_fields(a: HistoryMessageAddOn) -> Seq<FieldView> {
    one("source"@, "history_message_add_on"@) + one("add_on_type"@, add_on_type_name(a.message_add_on_type)) + one(
        "add_on_message_present"@,
        bool_text(a.message_add_on is Some),
    ) + one("legacy_message_present"@, bool_text(a.legacy_message is Some)) + match a.server_timestamp_ms {
        Some(t) => one("server_timestamp_ms"@, decimal_chars(t as nat)),
        None => Seq::empty(),
    } + match a.status {
        Some(n) => one("status"@, signed_decimal(n as int)),
        None => Seq::empty(),
    } + match a.add_on_context_info {
        Some(c) => (match c.duration_in_secs {
            Some(d) => one("add_on_duration_secs"@, decimal_chars(d as nat)),
            None => Seq::empty(),
        }) + match c.expiry_type {
            Some(n) => one("add_on_expiry_type"@, signed_decimal(n as int)),
            None => Seq::empty(),
        },
        None => Seq::empty(),
    } + match a.message_add_on {
        Some(m) => add_on_message_fields(m),
        None => Seq::empty(),
    } + match a.legacy_message {
        Some(l) => legacy_fields(l, sets_poll(a), sets_event(a)),
        None => Seq::empty(),
    }
}

/// The error that the times of an add-on give, when one is negative.
pub open spec fn add_on_fault(a: HistoryMessageAddOn) -> Option<Seq<char>> {
    if (a.sender_timestamp_ms matches Some(t) && t < 0) {
        Some("history message add-on sender timestamp"@ + " must be non-negative"@)
    } else if (a.server_timestamp_ms matches Some(t) && t < 0) {
        Some("history message add-on server timestamp"@ + " must be non-negative"@)
    } else if (a.legacy_message matches Some(l) && l.event_response_message matches Some(r)
        && r.timestamp_ms matches Some(t) && t < 0) {
        Some("history event response message timestamp"@ + " must be non-negative"@)
    } else {
        None
    }
}

/// The update that an add-on gives, or the error that refuses it.
pub open spec fn add_on_update_of(a: HistoryMessageAddOn) -> Result<UpdateView, Seq<char>> {
    match add_on_target(a) {
        Err(m) => Err(m),
        Ok(k) => match add_on_fault(a) {
            Some(m) => Err(m),
            None => Ok(
                (
                    k,
                    match a.sender_timestamp_ms {
                        Some(t) => Some(t as u64),
                        None => None,
                    },
                    add_on_fields(a),
                ),
            ),
        },
    }
}

pub(crate) fn signed_text(n: i32) -> (s: String)
    ensures
        s@ == signed_decimal(n as int),
{
    crate::text::i64_to_string(n as i64)
}

fn add_on_type_text(t: Option<i32>) -> (s: String)
    ensures
        s@ == add_on_type_name(t),
{
    let v: i32 = match t {
        Some(n) => n,
        None => 0,
    };
    if v == 1 {
        owned("reaction")
    } else if v == 2 {
        owned("event_response")
    } else if v == 3 {
        owned("poll_update")
    } else if v == 4 {
        owned("pin_in_chat")
    } else {
        owned("undefined")
    }
}

pub(crate) fn event_response_text(r: Option<i32>) -> (s: String)
    ensures
        s@ == event_response_name(r),
{
    let v: i32 = match r {
        Some(n) => n,
        None => 0,
    };
    if v == 1 {
        owned("going")
    } else if v == 2 {
        owned("not_going")
    } else if v == 3 {
        owned("maybe")
    } else {
        owned("unknown")
    }
}

fn pin_action_text(t: Option<i32>) -> (s: String)
    ensures
        s@ == pin_action_name(t),
{
    let v: i32 = match t {
        Some(n) => n,
        None => 0,
    };
    if v == 1 {
        owned("pin")
    } else if v == 2 {
        owned("unpin")
    } else {
        owned("unknown")
    }
}

fn stanza_type_text(m: &HistoryAddOnMessage) -> (s: String)
    ensures
        s@ == stanza_type_name(*m),
{
    if m.reaction_present {
        owned("reaction")
    } else if m.poll_present {
        owned("poll")
    } else if m.event_present {
        owned("event")
    } else if m.media_present {
        owned("media")
    } else {
        owned("text")
    }
}

pub(crate) fn push_one(f: &mut Vec<(String, String)>, key: &str, value: String)
    ensures
        fields_view(final(f)@) == fields_view(old(f)@) + one(key@, value@),
{
    push_field(f, key, value);
    assert(fields_view(f@) =~= fields_view(old(f)@) + one(key@, value@));
}

fn push_bytes_len(f: &mut Vec<(String, String)>, key: &str, b: &Option<Vec<u8>>)
    ensures
        fields_view(final(f)@) == fields_view(old(f)@) + bytes_len_field(key@, *b),
{
    if let Some(b) = b {
        push_one(f, key, crate::text::u64_to_string(b.len() as u64));
    }
    assert(fields_view(f@) =~= fields_view(old(f)@) + bytes_len_field(key@, *b));
}

fn push_poll_fields(f: &mut Vec<(String, String)>, p: &Option<HistoryPollUpdateContent>)
    ensures
        fields_view(final(f)@) == fields_view(old(f)@) + poll_fields(*p),
{
    if let Some(p) = p {
        push_one(f, "poll_update", owned("true"));
        push_one(f, "vote_encrypted", bool_string(p.vote.is_some()));
        push_one(f, "metadata_present", bool_string(p.metadata_present));
        let ghost before_vote = fields_view(f@);
        if let Some(v) = &p.vote {
            push_bytes_len(f, "encrypted_vote_payload_bytes", &v.enc_payload);
            push_bytes_len(f, "encrypted_vote_iv_bytes", &v.enc_iv);
        }
        assert(fields_view(f@) =~= before_vote + match p.vote {
            Some(v) => bytes_len_field("encrypted_vote_payload_bytes"@, v.enc_payload) + bytes_len_field(
                "encrypted_vote_iv_bytes"@,
                v.enc_iv,
            ),
            None => Seq::<FieldView>::empty(),
        });
    }
    assert(fields_view(f@) =~= fields_view(old(f)@) + poll_fields(*p));
}

fn push_enc_event_fields(f: &mut Vec<(String, String)>, e: &Option<HistoryEncEventResponse>)
    ensures
        fields_view(final(f)@) == fields_view(old(f)@) + enc_event_fields(*e),
{
    if let Some(e) = e {
        push_one(f, "event_response", owned("true"));
        push_one(f, "response_encrypted", bool_string(e.enc_payload.is_some()));
        push_bytes_len(f, "encrypted_event_response_payload_bytes", &e.enc_payload);
        push_bytes_len(f, "encrypted_event_response_iv_bytes", &e.enc_iv);
    }
    assert(fields_view(f@) =~= fields_view(old(f)@) + enc_event_fields(*e));
}

fn push_message_fields(f: &mut Vec<(String, String)>, m: &HistoryAddOnMessage)
    ensures
        fields_view(final(f)@) == fields_view(old(f)@) + add_on_message_fields(*m),
{
    push_one(f, "add_on_stanza_type", stanza_type_text(m));
    push_poll_fields(f, &m.poll_update);
    push_enc_event_fields(f, &m.enc_event_response);
    if let Some(p) = &m.pin {
        push_one(f, "pin_action", pin_action_text(p.pin_type));
    }
    if m.reaction.is_some() {
        push_one(f, "reaction", owned("true"));
    }
    assert(fields_view(f@) =~= fields_view(old(f)@) + add_on_message_fields(*m));
}

fn push_event_response_fields(f: &mut Vec<(String, String)>, r: &HistoryEventResponseMessage, set: bool) -> (res:
    CoreResult<()>)
    ensures
        match res {
            Ok(_) => !(r.timestamp_ms matches Some(t) && t < 0) && fields_view(final(f)@) == fields_view(old(f)@)
                + event_response_fields(*r, set),
            Err(e) => (r.timestamp_ms matches Some(t) && t < 0) && e is Protocol && e.detail()
                == "history event response message timestamp"@ + " must be non-negative"@,
        },
{
    if !set {
        push_one(f, "event_response", owned("true"));
    }
    push_one(f, "response", event_response_text(r.response));
    if let Some(n) = r.extra_guest_count {
        push_one(f, "extra_guest_count", signed_text(n));
    }
    if let Some(t) = r.timestamp_ms {
        let t = match non_negative_i64_to_u64(t, "history event response message timestamp") {
            Ok(v) => v,
            Err(e) => return Err(e),
        };
        push_one(f, "response_timestamp_ms", crate::text::u64_to_string(t));
    }
    assert(fields_view(f@) =~= fields_view(old(f)@) + event_response_fields(*r, set));
    Ok(())
}

fn push_legacy_fields(f: &mut Vec<(String, String)>, l: &HistoryLegacyAddOn, poll_set: bool, event_set: bool) -> (res:
    CoreResult<()>)
    ensures
        match res {
            Ok(_) => !(l.event_response_message matches Some(r) && r.timestamp_ms matches Some(t) && t < 0)
                && fields_view(final(f)@) == fields_view(old(f)@) + legacy_fields(*l, poll_set, event_set),
            Err(e) => (l.event_response_message matches Some(r) && r.timestamp_ms matches Some(t) && t < 0)
                && e is Protocol && e.detail() == "history event response message timestamp"@
                + " must be non-negative"@,
        },
{
    if let Some(o) = &l.poll_vote_selected_options {
        if !poll_set {
            push_one(f, "poll_update", owned("true"));
        }
        push_one(f, "selected_options_count", crate::text::u64_to_string(o.len() as u64));
    }
    let ghost mid = fields_view(f@);
    assert(mid =~= fields_view(old(f)@) + match l.poll_vote_selected_options {
        Some(o) => (if poll_set {
            Seq::<FieldView>::empty()
        } else {
            one("poll_update"@, "true"@)
        }) + one("selected_options_count"@, decimal_chars(o@.len())),
        None => Seq::<FieldView>::empty(),
    });
    if let Some(r) = &l.event_response_message {
        match push_event_response_fields(f, r, event_set) {
            Ok(_) => {},
            Err(e) => return Err(e),
        }
    }
    assert(fields_view(f@) =~= fields_view(old(f)@) + legacy_fields(*l, poll_set, event_set));
    Ok(())
}

/// The head of the update fields and the server time, status and context
/// fields; refuses a negative server time.
fn add_on_head_fields(a: &HistoryMessageAddOn) -> (res: CoreResult<Vec<(String, String)>>)
    ensures
        match res {
            Ok(f) => !(a.server_timestamp_ms matches Some(t) && t < 0) && fields_view(f@) == one(
                "source"@,
                "history_message_add_on"@,
            ) + one("add_on_type"@, add_on_type_name(a.message_add_on_type)) + one(
                "add_on_message_present"@,
                bool_text(a.message_add_on is Some),
            ) + one("legacy_message_present"@, bool_text(a.legacy_message is Some)) + match a.server_timestamp_ms {
                Some(t) => one("server_timestamp_ms"@, decimal_chars(t as nat)),
                None => Seq::<FieldView>::empty(),
            } + match a.status {
                Some(n) => one("status"@, signed_decimal(n as int)),
                None => Seq::<FieldView>::empty(),
            } + match a.add_on_context_info {
                Some(c) => (match c.duration_in_secs {
                    Some(d) => one("add_on_duration_secs"@, decimal_chars(d as nat)),
                    None => Seq::<FieldView>::empty(),
                }) + match c.expiry_type {
                    Some(n) => one("add_on_expiry_type"@, signed_decimal(n as int)),
                    None => Seq::<FieldView>::empty(),
                },
                None => Seq::<FieldView>::empty(),
            },
            Err(e) => (a.server_timestamp_ms matches Some(t) && t < 0) && e is Protocol && e.detail()
                == "history message add-on server timestamp"@ + " must be non-negative"@,
        },
{
    let mut f: Vec<(String, String)> = Vec::new();
    push_one(&mut f, "source", owned("history_message_add_on"));
    push_one(&mut f, "add_on_type", add_on_type_text(a.message_add_on_type));
    push_one(&mut f, "add_on_message_present", bool_string(a.message_add_on.is_some()));
    push_one(&mut f, "legacy_message_present", bool_string(a.legacy_message.is_some()));
    if let Some(t) = a.server_timestamp_ms {
        let t = match non_negative_i64_to_u64(t, "history message add-on server timestamp") {
            Ok(v) => v,
            Err(e) => return Err(e),
        };
        push_one(&mut f, "server_timestamp_ms", crate::text::u64_to_string(t));
    }
    if let Some(n) = a.status {
        push_one(&mut f, "status", signed_text(n));
    }
    let ghost with_status = fields_view(f@);
    if let Some(c) = &a.add_on_context_info {
        if let Some(d) = c.duration_in_secs {
            push_one(&mut f, "add_on_duration_secs", crate::text::u64_to_string(d as u64));
        }
        if let Some(n) = c.expiry_type {
            push_one(&mut f, "add_on_expiry_type", signed_text(n));
        }
    }
    assert(fields_view(f@) =~= with_status + match a.add_on_context_info {
        Some(c) => (match c.duration_in_secs {
            Some(d) => one("add_on_duration_secs"@, decimal_chars(d as nat)),
            None => Seq::<FieldView>::empty(),
        }) + match c.expiry_type {
            Some(n) => one("add_on_expiry_type"@, signed_decimal(n as int)),
            None => Seq::<FieldView>::empty(),
        },
        None => Seq::<FieldView>::empty(),
    });
    Ok(f)
}

/// The update of the message an add-on targets: the add-on's type, what
/// its message and legacy message carry, its times, status and duration.
pub fn history_message_add_on_update(a: &HistoryMessageAddOn) -> (r: CoreResult<HistoryMessageUpdate>)
    ensures
        match r {
            Ok(u) => add_on_update_of(*a) == Ok::<UpdateView, Seq<char>>(update_view(u)),
            Err(e) => e is Protocol && add_on_update_of(*a) == Err::<UpdateView, Seq<char>>(e.detail()),
        },
{
    let key = match add_on_target_key(a) {
        Ok(k) => k,
        Err(e) => return Err(e),
    };
    let mut timestamp: Option<u64> = None;
    if let Some(t) = a.sender_timestamp_ms {
        let t = match non_negative_i64_to_u64(t, "history message add-on sender timestamp") {
            Ok(v) => v,
            Err(e) => return Err(e),
        };
        timestamp = Some(t);
    }
    let mut fields = match add_on_head_fields(a) {
        Ok(f) => f,
        Err(e) => return Err(e),
    };
    if let Some(m) = &a.message_add_on {
        push_message_fields(&mut fields, m);
    }
    let poll_set = match &a.message_add_on {
        Some(m) => m.poll_update.is_some(),
        None => false,
    };
    let event_set = match &a.message_add_on {
        Some(m) => m.enc_event_response.is_some(),
        None => false,
    };
    if let Some(l) = &a.legacy_message {
        match push_legacy_fields(&mut fields, l, poll_set, event_set) {
            Ok(_) => {},
            Err(e) => return Err(e),
        }
    }
    assert(fields_view(fields@) =~= add_on_fields(*a));
    Ok(HistoryMessageUpdate { key, timestamp, fields })
}

} // verus!
