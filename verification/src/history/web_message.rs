//! Messages of a history payload, and what is kept beside each: reactions,
//! poll updates, event responses and add-ons.

use crate::error::{CoreError, CoreResult};
use crate::history::add_on::{
    add_on_update_of, event_response_name, event_response_text, history_message_add_on_update,
    history_message_event_key, HistoryMessageAddOn, one, push_one, signed_text,
    update_target, update_view, HistoryEventResponseMessage, HistoryMessageUpdate, UpdateView,
};
use crate::history::processing::{bool_string, capacity_text, fields_view, refusal_of, FieldView, Refusal};
use crate::history::{
    ensure_capacity, history_jid_fault, opt_str, sync_kind_name, HistorySyncKind, non_negative_i64_to_u64, validate_history_jid};
use crate::jid::jid_valid;
use crate::key::{EventKeyView, MessageEventKey, MessageKey, MessageKeyView};
use crate::message::bool_text;
use crate::text::{decimal_chars, opt_view, owned, signed_decimal};
use vstd::prelude::*;

verus! {

/// A reaction kept beside a message.
#[derive(Clone, Debug, PartialEq, Eq)]
pub struct HistoryReaction {
    pub key: Option<MessageKey>,
    pub text: Option<String>,
    pub sender_timestamp_ms: Option<i64>,
}

/// A poll update kept beside a message: the poll it votes in, the selected
/// options of the vote when there is one, its times and whether it is
/// unread.
#[derive(Clone, Debug, PartialEq, Eq)]
pub struct HistoryPollUpdate {
    pub poll_update_message_key: Option<MessageKey>,
    pub vote_selected_options: Option<Vec<Vec<u8>>>,
    pub sender_timestamp_ms: Option<i64>,
    pub server_timestamp_ms: Option<i64>,
    pub unread: Option<bool>,
}

/// An event response kept beside a message.
#[derive(Clone, Debug, PartialEq, Eq)]
pub struct HistoryEventResponse {
    pub event_response_message_key: Option<MessageKey>,
    pub timestamp_ms: Option<i64>,
    pub event_response_message: Option<HistoryEventResponseMessage>,
    pub unread: Option<bool>,
}

/// A reaction record: the message reacted to, its author, its text and time.
#[derive(Clone, Debug, PartialEq, Eq)]
pub struct HistoryReactionEvent {
    pub key: MessageEventKey,
    pub from: String,
    pub text: Option<String>,
    pub timestamp: Option<u64>,
}

pub type ReactionView = (EventKeyView, Seq<char>, Option<Seq<char>>, Option<u64>);

pub open spec fn reaction_view(e: HistoryReactionEvent) -> ReactionView {
    (e.key@, e.from@, opt_view(e.text), e.timestamp)
}

pub open spec fn non_empty_text(o: Option<Seq<char>>) -> bool {
    o matches Some(v) && v.len() > 0
}

pub open spec fn checked_time(t: Option<i64>) -> Option<u64> {
    match t {
        Some(v) => Some(v as u64),
        None => None,
    }
}

pub open spec fn negative(t: Option<i64>) -> bool {
    t matches Some(v) && v < 0
}

/// The author of a reaction: the participant of its key, else the chat.
pub open spec fn reaction_author(k: MessageKeyView) -> Option<Seq<char>> {
    if non_empty_text(k.participant) {
        k.participant
    } else if non_empty_text(k.remote_jid) {
        k.remote_jid
    } else {
        None
    }
}

/// The reaction record of a reaction to the message `target`, or the error
/// that refuses it.
pub open spec fn reaction_of(target: EventKeyView, r: HistoryReaction) -> Result<ReactionView, Seq<char>> {
    match r.key {
        None => Err("history reaction missing author key"@),
        Some(k) => match reaction_author(k@) {
            None => Err("history reaction missing author JID"@),
            Some(from) => if !jid_valid(from) {
                Err(history_jid_fault("history reaction author JID"@, from))
            } else if negative(r.sender_timestamp_ms) {
                Err("history reaction sender timestamp"@ + " must be non-negative"@)
            } else {
                Ok((target, from, opt_view(r.text), checked_time(r.sender_timestamp_ms)))
            },
        },
    }
}

fn opt_clone(o: &Option<String>) -> (r: Option<String>)
    ensures
        opt_view(r) == opt_view(*o),
{
    match o {
        Some(s) => Some(crate::text::clone_string(s)),
        None => None,
    }
}

/// The reaction record of a reaction to the message `target`.
pub fn history_reaction_event(target: &MessageEventKey, r: &HistoryReaction) -> (res: CoreResult<
    HistoryReactionEvent,
>)
    ensures
        match res {
            Ok(e) => reaction_of(target@, *r) == Ok::<ReactionView, Seq<char>>(reaction_view(e)),
            Err(e) => e is Protocol && reaction_of(target@, *r) == Err::<ReactionView, Seq<char>>(e.detail()),
        },
{
    let k = match &r.key {
        None => return Err(CoreError::Protocol(owned("history reaction missing author key"))),
        Some(k) => k,
    };
    let from: &str = match &k.participant {
        Some(p) if !p.as_str().is_empty() => p.as_str(),
        _ => match &k.remote_jid {
            Some(j) if !j.as_str().is_empty() => j.as_str(),
            _ => return Err(CoreError::Protocol(owned("history reaction missing author JID"))),
        },
    };
    match validate_history_jid("history reaction author JID", from) {
        Ok(_) => {},
        Err(e) => return Err(e),
    }
    let timestamp: Option<u64> = match r.sender_timestamp_ms {
        Some(t) => match non_negative_i64_to_u64(t, "history reaction sender timestamp") {
            Ok(v) => Some(v),
            Err(e) => return Err(e),
        },
        None => None,
    };
    Ok(HistoryReactionEvent { key: target.copy(), from: owned(from), text: opt_clone(&r.text), timestamp })
}

// ---------------------------------------------------------------------------
// Poll updates and event responses.
// ---------------------------------------------------------------------------

pub open spec fn unread_text(u: Option<bool>) -> Seq<char> {
    bool_text(u == Some(true))
}

/// The fields of the update of a poll update (whose times are not
/// negative).
pub open spec fn poll_update_fields(p: HistoryPollUpdate) -> Seq<FieldView> {
    one("source"@, "history_poll_update"@) + one("poll_update"@, "true"@) + one(
        "vote_present"@,
        bool_text(p.vote_selected_options is Some),
    ) + one("unread"@, unread_text(p.unread)) + match p.server_timestamp_ms {
        Some(t) => one("server_timestamp_ms"@, decimal_chars(t as nat)),
        None => Seq::empty(),
    } + match p.vote_selected_options {
        Some(o) => one("selected_options_count"@, decimal_chars(o@.len())),
        None => Seq::empty(),
    }
}

/// The update of a poll update, or the error that refuses it.
pub open spec fn poll_update_of(p: HistoryPollUpdate) -> Result<UpdateView, Seq<char>> {
    match p.poll_update_message_key {
        None => Err("history poll update missing target key"@),
        Some(k) => match update_target(k@) {
            Err(m) => Err(m),
            Ok(key) => if negative(p.sender_timestamp_ms) {
                Err("history poll update sender timestamp"@ + " must be non-negative"@)
            } else if negative(p.server_timestamp_ms) {
                Err("history poll update server timestamp"@ + " must be non-negative"@)
            } else {
                Ok((key, checked_time(p.sender_timestamp_ms), poll_update_fields(p)))
            },
        },
    }
}

fn unread_string(u: Option<bool>) -> (s: String)
    ensures
        s@ == unread_text(u),
{
    bool_string(match u {
        Some(b) => b,
        None => false,
    })
}

/// The update of the poll a poll update votes in.
pub fn history_poll_update(p: &HistoryPollUpdate) -> (res: CoreResult<HistoryMessageUpdate>)
    ensures
        match res {
            Ok(u) => poll_update_of(*p) == Ok::<UpdateView, Seq<char>>(update_view(u)),
            Err(e) => e is Protocol && poll_update_of(*p) == Err::<UpdateView, Seq<char>>(e.detail()),
        },
{
    let key = match &p.poll_update_message_key {
        None => return Err(CoreError::Protocol(owned("history poll update missing target key"))),
        Some(k) => match history_message_event_key(k) {
            Ok(key) => key,
            Err(e) => return Err(e),
        },
    };
    let mut fields: Vec<(String, String)> = Vec::new();
    push_one(&mut fields, "source", owned("history_poll_update"));
    push_one(&mut fields, "poll_update", owned("true"));
    push_one(&mut fields, "vote_present", bool_string(p.vote_selected_options.is_some()));
    push_one(&mut fields, "unread", unread_string(p.unread));
    let timestamp: Option<u64> = match p.sender_timestamp_ms {
        Some(t) => match non_negative_i64_to_u64(t, "history poll update sender timestamp") {
            Ok(v) => Some(v),
            Err(e) => return Err(e),
        },
        None => None,
    };
    if let Some(t) = p.server_timestamp_ms {
        let t = match non_negative_i64_to_u64(t, "history poll update server timestamp") {
            Ok(v) => v,
            Err(e) => return Err(e),
        };
        push_one(&mut fields, "server_timestamp_ms", crate::text::u64_to_string(t));
    }
    if let Some(o) = &p.vote_selected_options {
        push_one(&mut fields, "selected_options_count", crate::text::u64_to_string(o.len() as u64));
    }
    assert(fields_view(fields@) =~= poll_update_fields(*p));
    Ok(HistoryMessageUpdate { key, timestamp, fields })
}

/// The fields of the update of an event response (whose times are not
/// negative).
pub open spec fn event_response_update_fields(e: HistoryEventResponse) -> Seq<FieldView> {
    one("source"@, "history_event_response"@) + one("event_response"@, "true"@) + one(
        "unread"@,
        unread_text(e.unread),
    ) + one("response_present"@, bool_text(e.event_response_message is Some)) + match e.event_response_message {
        Some(r) => one("response"@, event_response_name(r.response)) + match r.extra_guest_count {
            Some(n) => one("extra_guest_count"@, signed_decimal(n as int)),
            None => Seq::empty(),
        } + match r.timestamp_ms {
            Some(t) => one("response_timestamp_ms"@, decimal_chars(t as nat)),
            None => Seq::empty(),
        },
        None => Seq::empty(),
    }
}

/// The update of an event response, or the error that refuses it.
pub open spec fn event_response_of(e: HistoryEventResponse) -> Result<UpdateView, Seq<char>> {
    match e.event_response_message_key {
        None => Err("history event response missing target key"@),
        Some(k) => match update_target(k@) {
            Err(m) => Err(m),
            Ok(key) => if negative(e.timestamp_ms) {
                Err("history event response timestamp"@ + " must be non-negative"@)
            } else if (e.event_response_message matches Some(r) && negative(r.timestamp_ms)) {
                Err("history event response message timestamp"@ + " must be non-negative"@)
            } else {
                Ok((key, checked_time(e.timestamp_ms), event_response_update_fields(e)))
            },
        },
    }
}

/// The update of the event an event response answers.
pub fn history_event_response_update(e: &HistoryEventResponse) -> (res: CoreResult<HistoryMessageUpdate>)
    ensures
        match res {
            Ok(u) => event_response_of(*e) == Ok::<UpdateView, Seq<char>>(update_view(u)),
            Err(err) => err is Protocol && event_response_of(*e) == Err::<UpdateView, Seq<char>>(err.detail()),
        },
{
    let key = match &e.event_response_message_key {
        None => return Err(CoreError::Protocol(owned("history event response missing target key"))),
        Some(k) => match history_message_event_key(k) {
            Ok(key) => key,
            Err(err) => return Err(err),
        },
    };
    let mut fields: Vec<(String, String)> = Vec::new();
    push_one(&mut fields, "source", owned("history_event_response"));
    push_one(&mut fields, "event_response", owned("true"));
    push_one(&mut fields, "unread", unread_string(e.unread));
    push_one(&mut fields, "response_present", bool_string(e.event_response_message.is_some()));
    let timestamp: Option<u64> = match e.timestamp_ms {
        Some(t) => match non_negative_i64_to_u64(t, "history event response timestamp") {
            Ok(v) => Some(v),
            Err(err) => return Err(err),
        },
        None => None,
    };
    if let Some(r) = &e.event_response_message {
        push_one(&mut fields, "response", event_response_text(r.response));
        if let Some(n) = r.extra_guest_count {
            push_one(&mut fields, "extra_guest_count", signed_text(n));
        }
        if let Some(t) = r.timestamp_ms {
            let t = match non_negative_i64_to_u64(t, "history event response message timestamp") {
                Ok(v) => v,
                Err(err) => return Err(err),
            };
            push_one(&mut fields, "response_timestamp_ms", crate::text::u64_to_string(t));
        }
    }
    assert(fields_view(fields@) =~= event_response_update_fields(*e));
    Ok(HistoryMessageUpdate { key, timestamp, fields })
}

// ---------------------------------------------------------------------------
// What is kept beside a message.
// ---------------------------------------------------------------------------

pub open spec fn update_views(v: Seq<HistoryMessageUpdate>) -> Seq<UpdateView> {
    v.map_values(|u: HistoryMessageUpdate| update_view(u))
}

pub open spec fn reaction_views(v: Seq<HistoryReactionEvent>) -> Seq<ReactionView> {
    v.map_values(|e: HistoryReactionEvent| reaction_view(e))
}

/// The reaction records of the reactions to the message `target` after
/// those already `done`, each under the limit `max` on their number, or the
/// first refusal.
pub open spec fn fold_reactions(
    done: Seq<ReactionView>,
    target: EventKeyView,
    rs: Seq<HistoryReaction>,
    max: nat,
) -> Result<Seq<ReactionView>, Refusal>
    decreases rs.len(),
{
    if rs.len() == 0 {
        Ok(done)
    } else {
        match fold_reactions(done, target, rs.drop_last(), max) {
            Err(e) => Err(e),
            Ok(d) => if d.len() >= max {
                Err((true, capacity_text("history reactions"@, d.len(), max)))
            } else {
                match reaction_of(target, rs.last()) {
                    Err(m) => Err((false, m)),
                    Ok(v) => Ok(d.push(v)),
                }
            },
        }
    }
}

/// The updates that `items` give through `step` after those already
/// `done`, each under the limit `max` on their number, or the first
/// refusal.
pub open spec fn fold_updates<T>(
    done: Seq<UpdateView>,
    items: Seq<T>,
    step: spec_fn(T) -> Result<UpdateView, Seq<char>>,
    max: nat,
) -> Result<Seq<UpdateView>, Refusal>
    decreases items.len(),
{
    if items.len() == 0 {
        Ok(done)
    } else {
        match fold_updates(done, items.drop_last(), step, max) {
            Err(e) => Err(e),
            Ok(d) => if d.len() >= max {
                Err((true, capacity_text("history message updates"@, d.len(), max)))
            } else {
                match step(items.last()) {
                    Err(m) => Err((false, m)),
                    Ok(v) => Ok(d.push(v)),
                }
            },
        }
    }
}

proof fn lemma_fold_reactions_err(
    done: Seq<ReactionView>,
    target: EventKeyView,
    rs: Seq<HistoryReaction>,
    max: nat,
    j: int,
    f: Refusal,
)
    requires
        0 <= j <= rs.len(),
        fold_reactions(done, target, rs.take(j), max) == Err::<Seq<ReactionView>, Refusal>(f),
    ensures
        fold_reactions(done, target, rs, max) == Err::<Seq<ReactionView>, Refusal>(f),
    decreases rs.len() - j,
{
    if j == rs.len() {
        assert(rs.take(j) == rs);
    } else {
        assert(rs.take(j + 1).drop_last() == rs.take(j));
        lemma_fold_reactions_err(done, target, rs, max, j + 1, f);
    }
}

proof fn lemma_fold_updates_err<T>(
    done: Seq<UpdateView>,
    items: Seq<T>,
    step: spec_fn(T) -> Result<UpdateView, Seq<char>>,
    max: nat,
    j: int,
    f: Refusal,
)
    requires
        0 <= j <= items.len(),
        fold_updates(done, items.take(j), step, max) == Err::<Seq<UpdateView>, Refusal>(f),
    ensures
        fold_updates(done, items, step, max) == Err::<Seq<UpdateView>, Refusal>(f),
    decreases items.len() - j,
{
    if j == items.len() {
        assert(items.take(j) == items);
    } else {
        assert(items.take(j + 1).drop_last() == items.take(j));
        lemma_fold_updates_err(done, items, step, max, j + 1, f);
    }
}

fn push_reactions(
    reactions: &mut Vec<HistoryReactionEvent>,
    target: &MessageEventKey,
    rs: &[HistoryReaction],
    max: usize,
) -> (r: CoreResult<()>)
    ensures
        match fold_reactions(reaction_views(old(reactions)@), target@, rs@, max as nat) {
            Ok(v) => r is Ok && reaction_views(final(reactions)@) == v,
            Err(f) => r matches Err(e) && refusal_of(e) == f && (e is Payload || e is Protocol),
        },
{
    let ghost start = reaction_views(reactions@);
    let mut i: usize = 0;
    assert(rs@.take(0) =~= Seq::<HistoryReaction>::empty());
    while i < rs.len()
        invariant
            0 <= i <= rs@.len(),
            start == reaction_views(old(reactions)@),
            fold_reactions(start, target@, rs@.take(i as int), max as nat) == Ok::<Seq<ReactionView>, Refusal>(
                reaction_views(reactions@),
            ),
        decreases rs@.len() - i,
    {
        let ghost t = rs@.take(i as int + 1);
        assert(t.drop_last() == rs@.take(i as int));
        assert(t.last() == rs@[i as int]);
        match ensure_capacity(reactions.len(), max, "history reactions") {
            Ok(_) => {},
            Err(e) => {
                proof {
                    lemma_fold_reactions_err(start, target@, rs@, max as nat, i as int + 1, refusal_of(e));
                }
                return Err(e);
            },
        }
        match history_reaction_event(target, &rs[i]) {
            Ok(ev) => {
                let ghost before = reactions@;
                reactions.push(ev);
                assert(reaction_views(reactions@) =~= reaction_views(before).push(reaction_view(ev)));
            },
            Err(e) => {
                proof {
                    lemma_fold_reactions_err(start, target@, rs@, max as nat, i as int + 1, refusal_of(e));
                }
                return Err(e);
            },
        }
        i = i + 1;
    }
    assert(rs@.take(i as int) == rs@);
    Ok(())
}

pub open spec fn poll_step() -> spec_fn(HistoryPollUpdate) -> Result<UpdateView, Seq<char>> {
    |p: HistoryPollUpdate| poll_update_of(p)
}

pub open spec fn event_response_step() -> spec_fn(HistoryEventResponse) -> Result<UpdateView, Seq<char>> {
    |e: HistoryEventResponse| event_response_of(e)
}

pub open spec fn add_on_step() -> spec_fn(HistoryMessageAddOn) -> Result<UpdateView, Seq<char>> {
    |a: HistoryMessageAddOn| add_on_update_of(a)
}

fn push_poll_updates(updates: &mut Vec<HistoryMessageUpdate>, items: &[HistoryPollUpdate], max: usize) -> (r: CoreResult<()>)
    ensures
        match fold_updates(update_views(old(updates)@), items@, poll_step(), max as nat) {
            Ok(v) => r is Ok && update_views(final(updates)@) == v,
            Err(f) => r matches Err(e) && refusal_of(e) == f && (e is Payload || e is Protocol),
        },
{
    let ghost start = update_views(updates@);
    let mut i: usize = 0;
    assert(items@.take(0) =~= Seq::<HistoryPollUpdate>::empty());
    while i < items.len()
        invariant
            0 <= i <= items@.len(),
            start == update_views(old(updates)@),
            fold_updates(start, items@.take(i as int), poll_step(), max as nat) == Ok::<Seq<UpdateView>, Refusal>(
                update_views(updates@),
            ),
        decreases items@.len() - i,
    {
        let ghost t = items@.take(i as int + 1);
        assert(t.drop_last() == items@.take(i as int));
        assert(t.last() == items@[i as int]);
        match ensure_capacity(updates.len(), max, "history message updates") {
            Ok(_) => {},
            Err(e) => {
                proof {
                    lemma_fold_updates_err(start, items@, poll_step(), max as nat, i as int + 1, refusal_of(e));
                }
                return Err(e);
            },
        }
        match history_poll_update(&items[i]) {
            Ok(u) => {
                let ghost before = updates@;
                updates.push(u);
                assert(update_views(updates@) =~= update_views(before).push(update_view(u)));
            },
            Err(e) => {
                proof {
                    lemma_fold_updates_err(start, items@, poll_step(), max as nat, i as int + 1, refusal_of(e));
                }
                return Err(e);
            },
        }
        i = i + 1;
    }
    assert(items@.take(i as int) == items@);
    Ok(())
}

fn push_event_responses(updates: &mut Vec<HistoryMessageUpdate>, items: &[HistoryEventResponse], max: usize) -> (r: CoreResult<()>)
    ensures
        match fold_updates(update_views(old(updates)@), items@, event_response_step(), max as nat) {
            Ok(v) => r is Ok && update_views(final(updates)@) == v,
            Err(f) => r matches Err(e) && refusal_of(e) == f && (e is Payload || e is Protocol),
        },
{
    let ghost start = update_views(updates@);
    let mut i: usize = 0;
    assert(items@.take(0) =~= Seq::<HistoryEventResponse>::empty());
    while i < items.len()
        invariant
            0 <= i <= items@.len(),
            start == update_views(old(updates)@),
            fold_updates(start, items@.take(i as int), event_response_step(), max as nat) == Ok::<Seq<UpdateView>, Refusal>(
                update_views(updates@),
            ),
        decreases items@.len() - i,
    {
        let ghost t = items@.take(i as int + 1);
        assert(t.drop_last() == items@.take(i as int));
        assert(t.last() == items@[i as int]);
        match ensure_capacity(updates.len(), max, "history message updates") {
            Ok(_) => {},
            Err(e) => {
                proof {
                    lemma_fold_updates_err(start, items@, event_response_step(), max as nat, i as int + 1, refusal_of(e));
                }
                return Err(e);
            },
        }
        match history_event_response_update(&items[i]) {
            Ok(u) => {
                let ghost before = updates@;
                updates.push(u);
                assert(update_views(updates@) =~= update_views(before).push(update_view(u)));
            },
            Err(e) => {
                proof {
                    lemma_fold_updates_err(start, items@, event_response_step(), max as nat, i as int + 1, refusal_of(e));
                }
                return Err(e);
            },
        }
        i = i + 1;
    }
    assert(items@.take(i as int) == items@);
    Ok(())
}

fn push_add_on_updates(updates: &mut Vec<HistoryMessageUpdate>, items: &[HistoryMessageAddOn], max: usize) -> (r: CoreResult<()>)
    ensures
        match fold_updates(update_views(old(updates)@), items@, add_on_step(), max as nat) {
            Ok(v) => r is Ok && update_views(final(updates)@) == v,
            Err(f) => r matches Err(e) && refusal_of(e) == f && (e is Payload || e is Protocol),
        },
{
    let ghost start = update_views(updates@);
    let mut i: usize = 0;
    assert(items@.take(0) =~= Seq::<HistoryMessageAddOn>::empty());
    while i < items.len()
        invariant
            0 <= i <= items@.len(),
            start == update_views(old(updates)@),
            fold_updates(start, items@.take(i as int), add_on_step(), max as nat) == Ok::<Seq<UpdateView>, Refusal>(
                update_views(updates@),
            ),
        decreases items@.len() - i,
    {
        let ghost t = items@.take(i as int + 1);
        assert(t.drop_last() == items@.take(i as int));
        assert(t.last() == items@[i as int]);
        match ensure_capacity(updates.len(), max, "history message updates") {
            Ok(_) => {},
            Err(e) => {
                proof {
                    lemma_fold_updates_err(start, items@, add_on_step(), max as nat, i as int + 1, refusal_of(e));
                }
                return Err(e);
            },
        }
        match history_message_add_on_update(&items[i]) {
            Ok(u) => {
                let ghost before = updates@;
                updates.push(u);
                assert(update_views(updates@) =~= update_views(before).push(update_view(u)));
            },
            Err(e) => {
                proof {
                    lemma_fold_updates_err(start, items@, add_on_step(), max as nat, i as int + 1, refusal_of(e));
                }
                return Err(e);
            },
        }
        i = i + 1;
    }
    assert(items@.take(i as int) == items@);
    Ok(())
}

// ---------------------------------------------------------------------------
// Messages.
// ---------------------------------------------------------------------------

/// A message of a history payload, as plain values: its key, its encoding
/// as received, its time, sender name, status and stub type, and what is
/// kept beside it.
#[derive(Clone, Debug, PartialEq, Eq)]
pub struct HistoryWebMessage {
    pub key: Option<MessageKey>,
    pub encoded: Vec<u8>,
    pub message_timestamp: Option<u64>,
    pub push_name: Option<String>,
    pub status: Option<i32>,
    pub message_stub_type: Option<i32>,
    pub reactions: Vec<HistoryReaction>,
    pub poll_updates: Vec<HistoryPollUpdate>,
    pub event_responses: Vec<HistoryEventResponse>,
    pub message_add_ons: Vec<HistoryMessageAddOn>,
}

/// A message record: the message, its encoding, its time and its fields.
#[derive(Clone, Debug, PartialEq, Eq)]
pub struct HistoryMessageEvent {
    pub key: MessageEventKey,
    pub payload: Vec<u8>,
    pub timestamp: Option<u64>,
    pub fields: Vec<(String, String)>,
}

pub type MessageView = (EventKeyView, Seq<u8>, Option<u64>, Seq<FieldView>);

pub open spec fn message_view(e: HistoryMessageEvent) -> MessageView {
    (e.key@, e.payload@, e.timestamp, fields_view(e.fields@))
}

pub open spec fn message_views(v: Seq<HistoryMessageEvent>) -> Seq<MessageView> {
    v.map_values(|e: HistoryMessageEvent| message_view(e))
}

/// The fields of the record of a message.
pub open spec fn message_fields(m: HistoryWebMessage, k: MessageKeyView, kind: HistorySyncKind, order: Option<u64>) -> Seq<
    FieldView,
> {
    one("history_sync_type"@, sync_kind_name(kind)) + match k.from_me {
        Some(b) => one("from_me"@, bool_text(b)),
        None => Seq::empty(),
    } + match m.push_name {
        Some(n) => one("push_name"@, n@),
        None => Seq::empty(),
    } + match m.status {
        Some(n) => one("status"@, signed_decimal(n as int)),
        None => Seq::empty(),
    } + match m.message_stub_type {
        Some(n) => one("message_stub_type"@, signed_decimal(n as int)),
        None => Seq::empty(),
    } + match order {
        Some(n) => one("history_order_id"@, decimal_chars(n as nat)),
        None => Seq::empty(),
    }
}

/// The record of a message after `count` others, under the limit `max` on
/// their number, or why it is refused: its chat is its key's, else
/// `fallback`, and must be valid; a participant, when given, must be valid;
/// its id must not be empty.
pub open spec fn message_event_of(
    count: nat,
    m: HistoryWebMessage,
    fallback: Option<Seq<char>>,
    order: Option<u64>,
    kind: HistorySyncKind,
    max: nat,
) -> Result<MessageView, Refusal> {
    if count >= max {
        Err((true, capacity_text("history messages"@, count, max)))
    } else {
        match m.key {
            None => Err((false, "history message missing key"@)),
            Some(key) => {
                let k = key@;
                let remote = if non_empty_text(k.remote_jid) {
                    k.remote_jid
                } else {
                    fallback
                };
                match remote {
                    None => Err((false, "history message missing remote JID"@)),
                    Some(j) => if !jid_valid(j) {
                        Err((false, history_jid_fault("history message remote JID"@, j)))
                    } else if (k.participant matches Some(p) && !jid_valid(p)) {
                        Err((false, history_jid_fault("history message participant JID"@, k.participant.unwrap())))
                    } else if !non_empty_text(k.id) {
                        Err((false, "history message missing id"@))
                    } else {
                        Ok(
                            (
                                EventKeyView { remote_jid: j, id: k.id.unwrap(), participant: k.participant },
                                m.encoded@,
                                m.message_timestamp,
                                message_fields(m, k, kind, order),
                            ),
                        )
                    },
                }
            },
        }
    }
}

/// What is kept beside a message (whose record targets `target`), after
/// the updates and reactions already recorded, or the first refusal.
pub open spec fn web_updates_of(
    ups: Seq<UpdateView>,
    rs: Seq<ReactionView>,
    target: EventKeyView,
    m: HistoryWebMessage,
    max: nat,
) -> Result<(Seq<UpdateView>, Seq<ReactionView>), Refusal> {
    match fold_reactions(rs, target, m.reactions@, max) {
        Err(e) => Err(e),
        Ok(r2) => match fold_updates(ups, m.poll_updates@, poll_step(), max) {
            Err(e) => Err(e),
            Ok(u1) => match fold_updates(u1, m.event_responses@, event_response_step(), max) {
                Err(e) => Err(e),
                Ok(u2) => match fold_updates(u2, m.message_add_ons@, add_on_step(), max) {
                    Err(e) => Err(e),
                    Ok(u3) => Ok((u3, r2)),
                },
            },
        },
    }
}

fn push_web_message_updates(
    updates: &mut Vec<HistoryMessageUpdate>,
    reactions: &mut Vec<HistoryReactionEvent>,
    m: &HistoryWebMessage,
    target: &MessageEventKey,
    max: usize,
) -> (r: CoreResult<()>)
    ensures
        match web_updates_of(update_views(old(updates)@), reaction_views(old(reactions)@), target@, *m, max as nat) {
            Ok((u, rs)) => r is Ok && update_views(final(updates)@) == u && reaction_views(final(reactions)@) == rs,
            Err(f) => r matches Err(e) && refusal_of(e) == f && (e is Payload || e is Protocol),
        },
{
    match push_reactions(reactions, target, m.reactions.as_slice(), max) {
        Ok(_) => {},
        Err(e) => return Err(e),
    }
    match push_poll_updates(updates, m.poll_updates.as_slice(), max) {
        Ok(_) => {},
        Err(e) => return Err(e),
    }
    match push_event_responses(updates, m.event_responses.as_slice(), max) {
        Ok(_) => {},
        Err(e) => return Err(e),
    }
    match push_add_on_updates(updates, m.message_add_ons.as_slice(), max) {
        Ok(_) => {},
        Err(e) => return Err(e),
    }
    Ok(())
}

fn message_record_fields(
    m: &HistoryWebMessage,
    k: &MessageKey,
    kind: HistorySyncKind,
    order: Option<u64>,
) -> (f: Vec<(String, String)>)
    ensures
        fields_view(f@) == message_fields(*m, k@, kind, order),
{
    let mut f: Vec<(String, String)> = Vec::new();
    push_one(&mut f, "history_sync_type", owned(kind.as_str_name()));
    if let Some(b) = k.from_me {
        push_one(&mut f, "from_me", bool_string(b));
    }
    if let Some(n) = &m.push_name {
        push_one(&mut f, "push_name", crate::text::clone_string(n));
    }
    if let Some(n) = m.status {
        push_one(&mut f, "status", signed_text(n));
    }
    if let Some(n) = m.message_stub_type {
        push_one(&mut f, "message_stub_type", signed_text(n));
    }
    if let Some(n) = order {
        push_one(&mut f, "history_order_id", crate::text::u64_to_string(n));
    }
    assert(fields_view(f@) =~= message_fields(*m, k@, kind, order));
    f
}

/// Records a message of a history payload under the limit on messages,
/// then what is kept beside it, each under the same limit.
pub fn push_history_message_event(
    messages: &mut Vec<HistoryMessageEvent>,
    updates: &mut Vec<HistoryMessageUpdate>,
    reactions: &mut Vec<HistoryReactionEvent>,
    m: &HistoryWebMessage,
    fallback_remote_jid: Option<&str>,
    msg_order_id: Option<u64>,
    kind: HistorySyncKind,
    max_messages: usize,
) -> (r: CoreResult<()>)
    ensures
        match message_event_of(
            old(messages)@.len(),
            *m,
            opt_str(fallback_remote_jid),
            msg_order_id,
            kind,
            max_messages as nat,
        ) {
            Err(f) => r matches Err(e) && refusal_of(e) == f && (e is Payload || e is Protocol),
            Ok(v) => match web_updates_of(
                update_views(old(updates)@),
                reaction_views(old(reactions)@),
                v.0,
                *m,
                max_messages as nat,
            ) {
                Err(f) => r matches Err(e) && refusal_of(e) == f && (e is Payload || e is Protocol),
                Ok((u, rs)) => {
                    &&& r is Ok
                    &&& message_views(final(messages)@) == message_views(old(messages)@).push(v)
                    &&& update_views(final(updates)@) == u
                    &&& reaction_views(final(reactions)@) == rs
                },
            },
        },
{
    match ensure_capacity(messages.len(), max_messages, "history messages") {
        Ok(_) => {},
        Err(e) => return Err(e),
    }
    let k = match &m.key {
        None => return Err(CoreError::Protocol(owned("history message missing key"))),
        Some(k) => k,
    };
    let remote: &str = match &k.remote_jid {
        Some(j) if !j.as_str().is_empty() => j.as_str(),
        _ => match fallback_remote_jid {
            Some(f) => f,
            None => return Err(CoreError::Protocol(owned("history message missing remote JID"))),
        },
    };
    match validate_history_jid("history message remote JID", remote) {
        Ok(_) => {},
        Err(e) => return Err(e),
    }
    if let Some(p) = &k.participant {
        match validate_history_jid("history message participant JID", p.as_str()) {
            Ok(_) => {},
            Err(e) => return Err(e),
        }
    }
    let id: &str = match &k.id {
        Some(id) if !id.as_str().is_empty() => id.as_str(),
        _ => return Err(CoreError::Protocol(owned("history message missing id"))),
    };
    let participant: Option<&str> = match &k.participant {
        Some(p) => Some(p.as_str()),
        None => None,
    };
    let target = MessageEventKey::new(remote, id, participant);
    let fields = message_record_fields(m, k, kind, msg_order_id);
    let event = HistoryMessageEvent {
        key: target.copy(),
        payload: crate::text::copy_bytes(m.encoded.as_slice()),
        timestamp: m.message_timestamp,
        fields,
    };
    let ghost before = messages@;
    messages.push(event);
    assert(message_views(messages@) =~= message_views(before).push(message_view(event)));
    push_web_message_updates(updates, reactions, m, &target, max_messages)
}

// ---------------------------------------------------------------------------
// Runs of messages.
// ---------------------------------------------------------------------------

/// Message records, updates and reactions gathered so far.
pub type MsgState = (Seq<MessageView>, Seq<UpdateView>, Seq<ReactionView>);

pub open spec fn msg_state(
    messages: Seq<HistoryMessageEvent>,
    updates: Seq<HistoryMessageUpdate>,
    reactions: Seq<HistoryReactionEvent>,
) -> MsgState {
    (message_views(messages), update_views(updates), reaction_views(reactions))
}

/// What a message adds: its record, then what is kept beside it.
pub open spec fn message_step(
    ms: MsgState,
    m: HistoryWebMessage,
    fallback: Option<Seq<char>>,
    order: Option<u64>,
    kind: HistorySyncKind,
    max: nat,
) -> Result<MsgState, Refusal> {
    match message_event_of(ms.0.len(), m, fallback, order, kind, max) {
        Err(f) => Err(f),
        Ok(v) => match web_updates_of(ms.1, ms.2, v.0, m, max) {
            Err(f) => Err(f),
            Ok((u, r)) => Ok((ms.0.push(v), u, r)),
        },
    }
}

/// A message of a conversation, with its position in the chat's order.
#[derive(Clone, Debug, PartialEq, Eq)]
pub struct HistorySyncMsg {
    pub msg_order_id: Option<u64>,
    pub message: Option<HistoryWebMessage>,
}

/// The messages of a conversation of chat `chat`, in order, or the first
/// refusal; an item without a message is refused.
pub open spec fn fold_items(
    ms: MsgState,
    items: Seq<HistorySyncMsg>,
    chat: Seq<char>,
    kind: HistorySyncKind,
    max: nat,
) -> Result<MsgState, Refusal>
    decreases items.len(),
{
    if items.len() == 0 {
        Ok(ms)
    } else {
        match fold_items(ms, items.drop_last(), chat, kind, max) {
            Err(e) => Err(e),
            Ok(s) => match items.last().message {
                None => Err((false, "history sync message item missing message"@)),
                Some(m) => message_step(s, m, Some(chat), items.last().msg_order_id, kind, max),
            },
        }
    }
}

/// The status messages of a payload, in order, or the first refusal.
pub open spec fn fold_statuses(ms: MsgState, msgs: Seq<HistoryWebMessage>, kind: HistorySyncKind, max: nat) -> Result<
    MsgState,
    Refusal,
>
    decreases msgs.len(),
{
    if msgs.len() == 0 {
        Ok(ms)
    } else {
        match fold_statuses(ms, msgs.drop_last(), kind, max) {
            Err(e) => Err(e),
            Ok(s) => message_step(s, msgs.last(), None, None, kind, max),
        }
    }
}

proof fn lemma_fold_items_err(
    ms: MsgState,
    items: Seq<HistorySyncMsg>,
    chat: Seq<char>,
    kind: HistorySyncKind,
    max: nat,
    j: int,
    f: Refusal,
)
    requires
        0 <= j <= items.len(),
        fold_items(ms, items.take(j), chat, kind, max) == Err::<MsgState, Refusal>(f),
    ensures
        fold_items(ms, items, chat, kind, max) == Err::<MsgState, Refusal>(f),
    decreases items.len() - j,
{
    if j == items.len() {
        assert(items.take(j) == items);
    } else {
        assert(items.take(j + 1).drop_last() == items.take(j));
        lemma_fold_items_err(ms, items, chat, kind, max, j + 1, f);
    }
}

proof fn lemma_fold_statuses_err(
    ms: MsgState,
    msgs: Seq<HistoryWebMessage>,
    kind: HistorySyncKind,
    max: nat,
    j: int,
    f: Refusal,
)
    requires
        0 <= j <= msgs.len(),
        fold_statuses(ms, msgs.take(j), kind, max) == Err::<MsgState, Refusal>(f),
    ensures
        fold_statuses(ms, msgs, kind, max) == Err::<MsgState, Refusal>(f),
    decreases msgs.len() - j,
{
    if j == msgs.len() {
        assert(msgs.take(j) == msgs);
    } else {
        assert(msgs.take(j + 1).drop_last() == msgs.take(j));
        lemma_fold_statuses_err(ms, msgs, kind, max, j + 1, f);
    }
}

/// Records the messages of a conversation of chat `chat`, in order.
pub fn push_history_sync_items(
    messages: &mut Vec<HistoryMessageEvent>,
    updates: &mut Vec<HistoryMessageUpdate>,
    reactions: &mut Vec<HistoryReactionEvent>,
    items: &[HistorySyncMsg],
    chat: &str,
    kind: HistorySyncKind,
    max_messages: usize,
) -> (r: CoreResult<()>)
    ensures
        match fold_items(msg_state(old(messages)@, old(updates)@, old(reactions)@), items@, chat@, kind, max_messages as nat) {
            Ok(s) => r is Ok && msg_state(final(messages)@, final(updates)@, final(reactions)@) == s,
            Err(f) => r matches Err(e) && refusal_of(e) == f && (e is Payload || e is Protocol),
        },
{
    let ghost start = msg_state(messages@, updates@, reactions@);
    let mut i: usize = 0;
    assert(items@.take(0) =~= Seq::<HistorySyncMsg>::empty());
    while i < items.len()
        invariant
            0 <= i <= items@.len(),
            start == msg_state(old(messages)@, old(updates)@, old(reactions)@),
            fold_items(start, items@.take(i as int), chat@, kind, max_messages as nat) == Ok::<MsgState, Refusal>(
                msg_state(messages@, updates@, reactions@),
            ),
        decreases items@.len() - i,
    {
        let ghost t = items@.take(i as int + 1);
        assert(t.drop_last() == items@.take(i as int));
        assert(t.last() == items@[i as int]);
        let m = match &items[i].message {
            None => {
                let e = CoreError::Protocol(owned("history sync message item missing message"));
                proof {
                    lemma_fold_items_err(start, items@, chat@, kind, max_messages as nat, i as int + 1, refusal_of(e));
                }
                return Err(e);
            },
            Some(m) => m,
        };
        match push_history_message_event(
            messages,
            updates,
            reactions,
            m,
            Some(chat),
            items[i].msg_order_id,
            kind,
            max_messages,
        ) {
            Ok(_) => {},
            Err(e) => {
                proof {
                    lemma_fold_items_err(start, items@, chat@, kind, max_messages as nat, i as int + 1, refusal_of(e));
                }
                return Err(e);
            },
        }
        i = i + 1;
    }
    assert(items@.take(i as int) == items@);
    Ok(())
}

/// Records the status messages of a payload, in order.
pub fn push_history_statuses(
    messages: &mut Vec<HistoryMessageEvent>,
    updates: &mut Vec<HistoryMessageUpdate>,
    reactions: &mut Vec<HistoryReactionEvent>,
    msgs: &[HistoryWebMessage],
    kind: HistorySyncKind,
    max_messages: usize,
) -> (r: CoreResult<()>)
    ensures
        match fold_statuses(msg_state(old(messages)@, old(updates)@, old(reactions)@), msgs@, kind, max_messages as nat) {
            Ok(s) => r is Ok && msg_state(final(messages)@, final(updates)@, final(reactions)@) == s,
            Err(f) => r matches Err(e) && refusal_of(e) == f && (e is Payload || e is Protocol),
        },
{
    let ghost start = msg_state(messages@, updates@, reactions@);
    let mut i: usize = 0;
    assert(msgs@.take(0) =~= Seq::<HistoryWebMessage>::empty());
    while i < msgs.len()
        invariant
            0 <= i <= msgs@.len(),
            start == msg_state(old(messages)@, old(updates)@, old(reactions)@),
            fold_statuses(start, msgs@.take(i as int), kind, max_messages as nat) == Ok::<MsgState, Refusal>(
                msg_state(messages@, updates@, reactions@),
            ),
        decreases msgs@.len() - i,
    {
        let ghost t = msgs@.take(i as int + 1);
        assert(t.drop_last() == msgs@.take(i as int));
        assert(t.last() == msgs@[i as int]);
        match push_history_message_event(messages, updates, reactions, &msgs[i], None, None, kind, max_messages) {
            Ok(_) => {},
            Err(e) => {
                proof {
                    lemma_fold_statuses_err(start, msgs@, kind, max_messages as nat, i as int + 1, refusal_of(e));
                }
                return Err(e);
            },
        }
        i = i + 1;
    }
    assert(msgs@.take(i as int) == msgs@);
    Ok(())
}

// ---------------------------------------------------------------------------
// Limits.
// ---------------------------------------------------------------------------

/// Message records, updates and reactions each number at most `max`.
pub open spec fn msg_within(ms: MsgState, max: nat) -> bool {
    ms.0.len() <= max && ms.1.len() <= max && ms.2.len() <= max
}

proof fn lemma_fold_reactions_within(done: Seq<ReactionView>, target: EventKeyView, rs: Seq<HistoryReaction>, max: nat)
    requires
        done.len() <= max,
    ensures
        fold_reactions(done, target, rs, max) matches Ok(d) ==> d.len() <= max,
    decreases rs.len(),
{
    if rs.len() > 0 {
        lemma_fold_reactions_within(done, target, rs.drop_last(), max);
    }
}

proof fn lemma_fold_updates_within<T>(
    done: Seq<UpdateView>,
    items: Seq<T>,
    step: spec_fn(T) -> Result<UpdateView, Seq<char>>,
    max: nat,
)
    requires
        done.len() <= max,
    ensures
        fold_updates(done, items, step, max) matches Ok(d) ==> d.len() <= max,
    decreases items.len(),
{
    if items.len() > 0 {
        lemma_fold_updates_within(done, items.drop_last(), step, max);
    }
}

proof fn lemma_message_step_within(
    ms: MsgState,
    m: HistoryWebMessage,
    fallback: Option<Seq<char>>,
    order: Option<u64>,
    kind: HistorySyncKind,
    max: nat,
)
    requires
        msg_within(ms, max),
    ensures
        message_step(ms, m, fallback, order, kind, max) matches Ok(s) ==> msg_within(s, max),
{
    if let Ok(v) = message_event_of(ms.0.len(), m, fallback, order, kind, max) {
        lemma_fold_reactions_within(ms.2, v.0, m.reactions@, max);
        lemma_fold_updates_within(ms.1, m.poll_updates@, poll_step(), max);
        if let Ok(u1) = fold_updates(ms.1, m.poll_updates@, poll_step(), max) {
            lemma_fold_updates_within(u1, m.event_responses@, event_response_step(), max);
            if let Ok(u2) = fold_updates(u1, m.event_responses@, event_response_step(), max) {
                lemma_fold_updates_within(u2, m.message_add_ons@, add_on_step(), max);
            }
        }
    }
}

pub proof fn lemma_fold_items_within(
    ms: MsgState,
    items: Seq<HistorySyncMsg>,
    chat: Seq<char>,
    kind: HistorySyncKind,
    max: nat,
)
    requires
        msg_within(ms, max),
    ensures
        fold_items(ms, items, chat, kind, max) matches Ok(s) ==> msg_within(s, max),
    decreases items.len(),
{
    if items.len() > 0 {
        lemma_fold_items_within(ms, items.drop_last(), chat, kind, max);
        if let Ok(s) = fold_items(ms, items.drop_last(), chat, kind, max) {
            if let Some(m) = items.last().message {
                lemma_message_step_within(s, m, Some(chat), items.last().msg_order_id, kind, max);
            }
        }
    }
}

pub proof fn lemma_fold_statuses_within(ms: MsgState, msgs: Seq<HistoryWebMessage>, kind: HistorySyncKind, max: nat)
    requires
        msg_within(ms, max),
    ensures
        fold_statuses(ms, msgs, kind, max) matches Ok(s) ==> msg_within(s, max),
    decreases msgs.len(),
{
    if msgs.len() > 0 {
        lemma_fold_statuses_within(ms, msgs.drop_last(), kind, max);
        if let Ok(s) = fold_statuses(ms, msgs.drop_last(), kind, max) {
            lemma_message_step_within(s, msgs.last(), None, None, kind, max);
        }
    }
}

} // verus!
