//! Call records of a history payload: each call of the call log becomes a
//! call record, with its caller, its participants and its named fields.

use crate::error::{CoreError, CoreResult};
use crate::history::{history_call_log_id, opt_str};
use crate::history::{
    call_log_id, ensure_capacity, history_call_log_single_participant, history_jid_fault,
    non_negative_i64_to_u64, present_jids, validate_history_jid,
};
use crate::history::processing::{
    as_opt_str, capacity_text, fields_view, opt_bool, opt_text, push_bool, push_field, push_text, refusal_of, Refusal,
    FieldView,
};
use crate::jid::jid_valid;
use crate::text::{clone_string, concat2, concat3, decimal_chars, opt_view, owned};
use vstd::prelude::*;

verus! {

/// A participant of a call of the call log.
#[derive(Clone, Debug, PartialEq, Eq)]
pub struct HistoryCallParticipant {
    pub user_jid: Option<String>,
    pub call_result: Option<i32>,
}

/// A call of the call log of a history payload, as plain values.
#[derive(Clone, Debug, PartialEq, Eq)]
pub struct HistoryCallLogRecord {
    pub call_result: Option<i32>,
    pub is_dnd_mode: Option<bool>,
    pub silence_reason: Option<i32>,
    pub duration: Option<i64>,
    pub start_time: Option<i64>,
    pub is_incoming: Option<bool>,
    pub is_video: Option<bool>,
    pub is_call_link: Option<bool>,
    pub call_link_token: Option<String>,
    pub scheduled_call_id: Option<String>,
    pub call_id: Option<String>,
    pub call_creator_jid: Option<String>,
    pub group_jid: Option<String>,
    pub participants: Vec<HistoryCallParticipant>,
    pub call_type: Option<i32>,
}

/// The call record reported for a call of the call log.
#[derive(Clone, Debug, PartialEq, Eq)]
pub struct HistoryCallEvent {
    pub id: String,
    pub from: String,
    pub event_type: String,
    pub call_id: Option<String>,
    pub participant: Option<String>,
    pub timestamp: Option<u64>,
    pub fields: Vec<(String, String)>,
}

/// A call record as values: id, caller, kind, call id, single participant,
/// time and fields.
pub type CallView = (
    Seq<char>,
    Seq<char>,
    Seq<char>,
    Option<Seq<char>>,
    Option<Seq<char>>,
    Option<u64>,
    Seq<FieldView>,
);

pub open spec fn call_view(e: HistoryCallEvent) -> CallView {
    (e.id@, e.from@, e.event_type@, opt_view(e.call_id), opt_view(e.participant), e.timestamp, fields_view(e.fields@))
}

pub open spec fn call_views(v: Seq<HistoryCallEvent>) -> Seq<CallView> {
    v.map_values(|e: HistoryCallEvent| call_view(e))
}

// ---------------------------------------------------------------------------
// Names of the call-log enumerations.
// ---------------------------------------------------------------------------

/// The schema name of a call result, or `UNKNOWN`.
pub open spec fn call_result_name(v: i32) -> Seq<char> {
    if v == 0 {
        "CONNECTED"@
    } else if v == 1 {
        "REJECTED"@
    } else if v == 2 {
        "CANCELLED"@
    } else if v == 3 {
        "ACCEPTEDELSEWHERE"@
    } else if v == 4 {
        "MISSED"@
    } else if v == 5 {
        "INVALID"@
    } else if v == 6 {
        "UNAVAILABLE"@
    } else if v == 7 {
        "UPCOMING"@
    } else if v == 8 {
        "FAILED"@
    } else if v == 9 {
        "ABANDONED"@
    } else if v == 10 {
        "ONGOING"@
    } else {
        "UNKNOWN"@
    }
}

/// The schema name of a call type, or `UNKNOWN`.
pub open spec fn call_type_name(v: i32) -> Seq<char> {
    if v == 0 {
        "REGULAR"@
    } else if v == 1 {
        "SCHEDULED_CALL"@
    } else if v == 2 {
        "VOICE_CHAT"@
    } else {
        "UNKNOWN"@
    }
}

/// The schema name of a silence reason, or `UNKNOWN`.
pub open spec fn silence_reason_name(v: i32) -> Seq<char> {
    if v == 0 {
        "NONE"@
    } else if v == 1 {
        "SCHEDULED"@
    } else if v == 2 {
        "PRIVACY"@
    } else if v == 3 {
        "LIGHTWEIGHT"@
    } else {
        "UNKNOWN"@
    }
}

fn call_result_text(v: i32) -> (s: String)
    ensures
        s@ == call_result_name(v),
{
    if v == 0 {
        owned("CONNECTED")
    } else if v == 1 {
        owned("REJECTED")
    } else if v == 2 {
        owned("CANCELLED")
    } else if v == 3 {
        owned("ACCEPTEDELSEWHERE")
    } else if v == 4 {
        owned("MISSED")
    } else if v == 5 {
        owned("INVALID")
    } else if v == 6 {
        owned("UNAVAILABLE")
    } else if v == 7 {
        owned("UPCOMING")
    } else if v == 8 {
        owned("FAILED")
    } else if v == 9 {
        owned("ABANDONED")
    } else if v == 10 {
        owned("ONGOING")
    } else {
        owned("UNKNOWN")
    }
}

fn call_type_text(v: i32) -> (s: String)
    ensures
        s@ == call_type_name(v),
{
    if v == 0 {
        owned("REGULAR")
    } else if v == 1 {
        owned("SCHEDULED_CALL")
    } else if v == 2 {
        owned("VOICE_CHAT")
    } else {
        owned("UNKNOWN")
    }
}

fn silence_reason_text(v: i32) -> (s: String)
    ensures
        s@ == silence_reason_name(v),
{
    if v == 0 {
        owned("NONE")
    } else if v == 1 {
        owned("SCHEDULED")
    } else if v == 2 {
        owned("PRIVACY")
    } else if v == 3 {
        owned("LIGHTWEIGHT")
    } else {
        owned("UNKNOWN")
    }
}

// ---------------------------------------------------------------------------
// JSON text of the participants.
// ---------------------------------------------------------------------------

/// A lower-case hexadecimal digit.
pub open spec fn hex_digit(d: int) -> char {
    if d < 10 {
        (d + 48) as char
    } else {
        (d + 87) as char
    }
}

/// How a character stands inside a JSON string: quote, backslash and
/// control characters escaped, the rest as it is.
pub open spec fn json_escaped_char(c: char) -> Seq<char> {
    let n = c as u32;
    if c == '"' {
        seq!['\\', '"']
    } else if c == '\\' {
        seq!['\\', '\\']
    } else if n == 8 {
        seq!['\\', 'b']
    } else if n == 9 {
        seq!['\\', 't']
    } else if n == 10 {
        seq!['\\', 'n']
    } else if n == 12 {
        seq!['\\', 'f']
    } else if n == 13 {
        seq!['\\', 'r']
    } else if n < 32 {
        seq!['\\', 'u', '0', '0', hex_digit(n as int / 16), hex_digit(n as int % 16)]
    } else {
        seq![c]
    }
}

pub open spec fn json_escaped(s: Seq<char>) -> Seq<char>
    decreases s.len(),
{
    if s.len() == 0 {
        Seq::empty()
    } else {
        json_escaped(s.drop_last()) + json_escaped_char(s.last())
    }
}

/// A text as a JSON string.
pub open spec fn json_string_literal(s: Seq<char>) -> Seq<char> {
    seq!['"'] + json_escaped(s) + seq!['"']
}

/// `serde_json::to_string` on a `str`: the text in double quotes, with
/// quote, backslash and control characters escaped (`\b`, `\t`, `\n`, `\f`,
/// `\r`, else `\u00` and two lower-case hexadecimal digits). Serializing a
/// `str` into memory does not fail.
#[verifier::external_body]
fn json_quote(s: &str) -> (r: String)
    ensures
        r@ == json_string_literal(s@),
{
    serde_json::to_string(s).unwrap_or_default()
}

/// The JSON object of a participant: its call result and its JID, each
/// when given.
pub open spec fn participant_json(p: HistoryCallParticipant) -> Seq<char> {
    let result = match p.call_result {
        Some(v) => Some("\"callResult\":"@ + json_string_literal(call_result_name(v))),
        None => None,
    };
    let jid = match opt_view(p.user_jid) {
        Some(j) => if j.len() > 0 {
            Some("\"jid\":"@ + json_string_literal(j))
        } else {
            None
        },
        None => None,
    };
    match (result, jid) {
        (Some(a), Some(b)) => "{"@ + a + ","@ + b + "}"@,
        (Some(a), None) => "{"@ + a + "}"@,
        (None, Some(b)) => "{"@ + b + "}"@,
        (None, None) => "{}"@,
    }
}

/// The JSON objects of the participants, separated by commas.
pub open spec fn participant_objects(ps: Seq<HistoryCallParticipant>) -> Seq<char>
    decreases ps.len(),
{
    if ps.len() == 0 {
        Seq::empty()
    } else if ps.len() == 1 {
        participant_json(ps[0])
    } else {
        participant_objects(ps.drop_last()) + ","@ + participant_json(ps.last())
    }
}

/// The error for the first participant whose JID is given and invalid.
pub open spec fn participants_fault(ps: Seq<HistoryCallParticipant>) -> Option<Seq<char>>
    decreases ps.len(),
{
    if ps.len() == 0 {
        None
    } else {
        match participants_fault(ps.drop_last()) {
            Some(f) => Some(f),
            None => match opt_view(ps.last().user_jid) {
                Some(j) => if j.len() > 0 && !jid_valid(j) {
                    Some(history_jid_fault("history call log participant JID"@, j))
                } else {
                    None
                },
                None => None,
            },
        }
    }
}

fn participant_object(p: &HistoryCallParticipant) -> (s: String)
    ensures
        s@ == participant_json(*p),
{
    let result: Option<String> = match p.call_result {
        Some(v) => {
            let name = call_result_text(v);
            let q = json_quote(name.as_str());
            Some(concat2("\"callResult\":", q.as_str()))
        },
        None => None,
    };
    let jid: Option<String> = match &p.user_jid {
        Some(j) => if j.as_str().is_empty() {
            None
        } else {
            let q = json_quote(j.as_str());
            Some(concat2("\"jid\":", q.as_str()))
        },
        None => None,
    };
    match (result, jid) {
        (Some(a), Some(b)) => {
            let head = concat3("{", a.as_str(), ",");
            concat3(head.as_str(), b.as_str(), "}")
        },
        (Some(a), None) => concat3("{", a.as_str(), "}"),
        (None, Some(b)) => concat3("{", b.as_str(), "}"),
        (None, None) => owned("{}"),
    }
}

/// The JSON array of the participants of a call; every participant JID
/// that is given must be valid.
pub fn history_call_log_participants_json(ps: &[HistoryCallParticipant]) -> (r: CoreResult<String>)
    ensures
        match r {
            Ok(s) => participants_fault(ps@) is None && s@ == "["@ + participant_objects(ps@) + "]"@,
            Err(e) => e is Protocol && participants_fault(ps@) == Some(e.detail()),
        },
{
    let mut acc = String::new();
    let mut i: usize = 0;
    while i < ps.len()
        invariant
            0 <= i <= ps@.len(),
            participants_fault(ps@.take(i as int)) is None,
            acc@ == participant_objects(ps@.take(i as int)),
        decreases ps@.len() - i,
    {
        let ghost t = ps@.take(i as int + 1);
        assert(t.drop_last() == ps@.take(i as int));
        assert(t.last() == ps@[i as int]);
        if let Some(j) = &ps[i].user_jid {
            if !j.as_str().is_empty() {
                match validate_history_jid("history call log participant JID", j.as_str()) {
                    Ok(_) => {},
                    Err(e) => {
                        proof {
                            lemma_fault_kept(ps@, i as int + 1);
                        }
                        return Err(e);
                    },
                }
            }
        }
        let obj = participant_object(&ps[i]);
        if i == 0 {
            acc = obj;
        } else {
            let with_comma = concat2(acc.as_str(), ",");
            acc = concat2(with_comma.as_str(), obj.as_str());
        }
        i = i + 1;
    }
    assert(ps@.take(i as int) == ps@);
    Ok(concat3("[", acc.as_str(), "]"))
}

/// A fault found in a prefix of the participants is the fault of all of
/// them.
proof fn lemma_fault_kept(ps: Seq<HistoryCallParticipant>, k: int)
    requires
        0 <= k <= ps.len(),
        participants_fault(ps.take(k)) is Some,
    ensures
        participants_fault(ps) == participants_fault(ps.take(k)),
    decreases ps.len() - k,
{
    if k < ps.len() {
        let t = ps.take(k + 1);
        assert(t.drop_last() == ps.take(k));
        lemma_fault_kept(ps, k + 1);
    } else {
        assert(ps.take(k) == ps);
    }
}

// ---------------------------------------------------------------------------
// The call record.
// ---------------------------------------------------------------------------

pub open spec fn non_empty(o: Option<Seq<char>>) -> bool {
    o matches Some(v) && v.len() > 0
}

/// The participant JIDs of a call, in order.
pub open spec fn participant_jids(ps: Seq<HistoryCallParticipant>) -> Seq<Option<String>> {
    ps.map_values(|p: HistoryCallParticipant| p.user_jid)
}

/// The caller of a call: its group JID, else its creator JID, else its first
/// participant JID (the first that is given and not empty), which must be
/// valid; else the error that tells why there is none.
pub open spec fn call_from(r: HistoryCallLogRecord) -> Result<Seq<char>, Seq<char>> {
    let g = opt_view(r.group_jid);
    let c = opt_view(r.call_creator_jid);
    let p = present_jids(participant_jids(r.participants@));
    if non_empty(g) {
        if jid_valid(g.unwrap()) {
            Ok(g.unwrap())
        } else {
            Err(history_jid_fault("history call log group JID"@, g.unwrap()))
        }
    } else if non_empty(c) {
        if jid_valid(c.unwrap()) {
            Ok(c.unwrap())
        } else {
            Err(history_jid_fault("history call log creator JID"@, c.unwrap()))
        }
    } else if p.len() > 0 {
        if jid_valid(p[0]) {
            Ok(p[0])
        } else {
            Err(history_jid_fault("history call log participant JID"@, p[0]))
        }
    } else {
        Err("history call log missing group, creator, or participant JID"@)
    }
}

/// The field `key` with a name, when one is given.
pub open spec fn opt_named(key: Seq<char>, name: Option<Seq<char>>) -> Seq<FieldView> {
    match name {
        Some(n) => seq![(key, n)],
        None => Seq::empty(),
    }
}

pub open spec fn call_enum_fields(r: HistoryCallLogRecord) -> Seq<FieldView> {
    opt_named(
        "call_result"@,
        match r.call_result {
            Some(v) => Some(call_result_name(v)),
            None => None,
        },
    ) + opt_named(
        "call_type"@,
        match r.call_type {
            Some(v) => Some(call_type_name(v)),
            None => None,
        },
    ) + opt_named(
        "silence_reason"@,
        match r.silence_reason {
            Some(v) => Some(silence_reason_name(v)),
            None => None,
        },
    )
}

pub open spec fn call_flag_fields(r: HistoryCallLogRecord) -> Seq<FieldView> {
    opt_bool("is_dnd_mode"@, r.is_dnd_mode) + opt_bool("is_incoming"@, r.is_incoming) + opt_bool(
        "is_video"@,
        r.is_video,
    ) + opt_bool("is_call_link"@, r.is_call_link)
}

pub open spec fn call_text_fields(r: HistoryCallLogRecord) -> Seq<FieldView> {
    opt_text("call_link_token"@, opt_view(r.call_link_token)) + opt_text(
        "scheduled_call_id"@,
        opt_view(r.scheduled_call_id),
    ) + opt_text("call_creator_jid"@, opt_view(r.call_creator_jid)) + opt_text(
        "group_jid"@,
        opt_view(r.group_jid),
    )
}

pub open spec fn call_participant_fields(r: HistoryCallLogRecord) -> Seq<FieldView> {
    if r.participants@.len() > 0 {
        seq![
            ("participants_count"@, decimal_chars(r.participants@.len())),
            ("participants"@, "["@ + participant_objects(r.participants@) + "]"@),
        ]
    } else {
        Seq::empty()
    }
}

/// The fields of the call record of a call (whose times are not negative).
pub open spec fn call_fields(r: HistoryCallLogRecord) -> Seq<FieldView> {
    seq![("source"@, "history_call_log"@)] + opt_named(
        "start_time"@,
        match r.start_time {
            Some(t) => Some(decimal_chars(t as nat)),
            None => None,
        },
    ) + call_enum_fields(r) + opt_named(
        "duration"@,
        match r.duration {
            Some(d) => Some(decimal_chars(d as nat)),
            None => None,
        },
    ) + call_flag_fields(r) + call_text_fields(r) + call_participant_fields(r)
}

/// The error that the fields of a call give: a negative start time or
/// duration, or an invalid participant JID.
pub open spec fn call_fields_fault(r: HistoryCallLogRecord) -> Option<Seq<char>> {
    if (r.start_time matches Some(t) && t < 0) {
        Some("history call log start time"@ + " must be non-negative"@)
    } else if (r.duration matches Some(d) && d < 0) {
        Some("history call log duration"@ + " must be non-negative"@)
    } else if r.participants@.len() > 0 {
        participants_fault(r.participants@)
    } else {
        None
    }
}

/// The call record of the call at position `index` of the call log, or the
/// error that refuses it: an invalid or missing caller, an invalid first
/// participant, a negative start time or duration, or an invalid
/// participant JID.
#[verifier::opaque]
pub open spec fn call_event_of(r: HistoryCallLogRecord, index: nat) -> Result<CallView, Seq<char>> {
    match call_from(r) {
        Err(m) => Err(m),
        Ok(from) => {
            let p = present_jids(participant_jids(r.participants@));
            if p.len() > 0 && !jid_valid(p[0]) {
                Err(history_jid_fault("history call log participant JID"@, p[0]))
            } else if call_fields_fault(r) is Some {
                Err(call_fields_fault(r).unwrap())
            } else {
                Ok(
                    (
                        call_log_id(
                            opt_view(r.call_id),
                            opt_view(r.scheduled_call_id),
                            opt_view(r.call_link_token),
                            r.start_time,
                            index,
                        ),
                        from,
                        "history_log"@,
                        if non_empty(opt_view(r.call_id)) {
                            opt_view(r.call_id)
                        } else {
                            None
                        },
                        if p.len() == 1 {
                            Some(p[0])
                        } else {
                            None
                        },
                        match r.start_time {
                            Some(t) => Some(t as u64),
                            None => None,
                        },
                        call_fields(r),
                    ),
                )
            }
        },
    }
}

fn participant_jid_list(ps: &[HistoryCallParticipant]) -> (out: Vec<Option<String>>)
    ensures
        out@ == participant_jids(ps@),
{
    let mut out: Vec<Option<String>> = Vec::new();
    let mut i: usize = 0;
    while i < ps.len()
        invariant
            0 <= i <= ps@.len(),
            out@ == participant_jids(ps@.take(i as int)),
        decreases ps@.len() - i,
    {
        let j: Option<String> = match &ps[i].user_jid {
            Some(s) => Some(s.clone()),
            None => None,
        };
        out.push(j);
        assert(participant_jids(ps@.take(i as int + 1)) =~= participant_jids(ps@.take(i as int)).push(
            ps@[i as int].user_jid,
        ));
        i = i + 1;
    }
    assert(ps@.take(i as int) == ps@);
    out
}

/// The JIDs present in a prefix come first among those of the whole.
proof fn lemma_present_prefix(s: Seq<Option<String>>, k: int)
    requires
        0 <= k <= s.len(),
    ensures
        present_jids(s.take(k)).len() <= present_jids(s).len(),
        forall|j: int|
            0 <= j < present_jids(s.take(k)).len() ==> #[trigger] present_jids(s.take(k))[j] == present_jids(s)[j],
    decreases s.len(),
{
    if k < s.len() {
        lemma_present_prefix(s.drop_last(), k);
        assert(s.drop_last().take(k) == s.take(k));
    } else {
        assert(s.take(k) == s);
    }
}

fn first_present(jids: &[Option<String>]) -> (r: Option<String>)
    ensures
        opt_view(r) == if present_jids(jids@).len() > 0 {
            Some(present_jids(jids@)[0])
        } else {
            None
        },
{
    let mut i: usize = 0;
    while i < jids.len()
        invariant
            0 <= i <= jids@.len(),
            present_jids(jids@.take(i as int)).len() == 0,
        decreases jids@.len() - i,
    {
        let ghost t = jids@.take(i as int + 1);
        assert(t.drop_last() == jids@.take(i as int));
        assert(t.last() == jids@[i as int]);
        if let Some(j) = &jids[i] {
            if !j.as_str().is_empty() {
                proof {
                    assert(present_jids(t) =~= seq![j@]);
                    lemma_present_prefix(jids@, i as int + 1);
                    assert(present_jids(t)[0] == present_jids(jids@)[0]);
                }
                return Some(clone_string(j));
            }
        }
        i = i + 1;
    }
    assert(jids@.take(i as int) == jids@);
    None
}

fn non_empty_text(o: &Option<String>) -> (r: Option<&str>)
    ensures
        opt_str(r) == if non_empty(opt_view(*o)) {
            opt_view(*o)
        } else {
            None
        },
{
    match o {
        Some(s) => if s.as_str().is_empty() {
            None
        } else {
            Some(s.as_str())
        },
        None => None,
    }
}

/// The caller of a call.
fn call_log_from_jid(record: &HistoryCallLogRecord, first: Option<String>) -> (r: CoreResult<String>)
    requires
        opt_view(first) == if present_jids(participant_jids(record.participants@)).len() > 0 {
            Some(present_jids(participant_jids(record.participants@))[0])
        } else {
            None
        },
    ensures
        match r {
            Ok(s) => call_from(*record) == Ok::<Seq<char>, Seq<char>>(s@),
            Err(e) => e is Protocol && call_from(*record) == Err::<Seq<char>, Seq<char>>(e.detail()),
        },
{
    if let Some(g) = non_empty_text(&record.group_jid) {
        validate_history_jid("history call log group JID", g)?;
        return Ok(owned(g));
    }
    if let Some(c) = non_empty_text(&record.call_creator_jid) {
        validate_history_jid("history call log creator JID", c)?;
        return Ok(owned(c));
    }
    match first {
        Some(p) => {
            validate_history_jid("history call log participant JID", p.as_str())?;
            Ok(p)
        },
        None => Err(CoreError::Protocol(owned("history call log missing group, creator, or participant JID"))),
    }
}

fn push_named(f: &mut Vec<(String, String)>, key: &str, name: Option<String>)
    ensures
        fields_view(final(f)@) == fields_view(old(f)@) + opt_named(key@, opt_view(name)),
{
    if let Some(n) = name {
        push_field(f, key, n);
    }
    assert(fields_view(f@) =~= fields_view(old(f)@) + opt_named(key@, opt_view(name)));
}

fn opt_call_result(v: Option<i32>) -> (r: Option<String>)
    ensures
        opt_view(r) == match v {
            Some(n) => Some(call_result_name(n)),
            None => None::<Seq<char>>,
        },
{
    match v {
        Some(n) => Some(call_result_text(n)),
        None => None,
    }
}

fn opt_call_type(v: Option<i32>) -> (r: Option<String>)
    ensures
        opt_view(r) == match v {
            Some(n) => Some(call_type_name(n)),
            None => None::<Seq<char>>,
        },
{
    match v {
        Some(n) => Some(call_type_text(n)),
        None => None,
    }
}

fn opt_silence_reason(v: Option<i32>) -> (r: Option<String>)
    ensures
        opt_view(r) == match v {
            Some(n) => Some(silence_reason_name(n)),
            None => None::<Seq<char>>,
        },
{
    match v {
        Some(n) => Some(silence_reason_text(n)),
        None => None,
    }
}

fn push_enum_fields(f: &mut Vec<(String, String)>, record: &HistoryCallLogRecord)
    ensures
        fields_view(final(f)@) == fields_view(old(f)@) + call_enum_fields(*record),
{
    push_named(f, "call_result", opt_call_result(record.call_result));
    push_named(f, "call_type", opt_call_type(record.call_type));
    push_named(f, "silence_reason", opt_silence_reason(record.silence_reason));
    assert(fields_view(f@) =~= fields_view(old(f)@) + call_enum_fields(*record));
}

fn push_flag_fields(f: &mut Vec<(String, String)>, record: &HistoryCallLogRecord)
    ensures
        fields_view(final(f)@) == fields_view(old(f)@) + call_flag_fields(*record),
{
    push_bool(f, "is_dnd_mode", record.is_dnd_mode);
    push_bool(f, "is_incoming", record.is_incoming);
    push_bool(f, "is_video", record.is_video);
    push_bool(f, "is_call_link", record.is_call_link);
    assert(fields_view(f@) =~= fields_view(old(f)@) + call_flag_fields(*record));
}

fn push_text_fields(f: &mut Vec<(String, String)>, record: &HistoryCallLogRecord)
    ensures
        fields_view(final(f)@) == fields_view(old(f)@) + call_text_fields(*record),
{
    push_text(f, "call_link_token", as_opt_str(&record.call_link_token));
    push_text(f, "scheduled_call_id", as_opt_str(&record.scheduled_call_id));
    push_text(f, "call_creator_jid", as_opt_str(&record.call_creator_jid));
    push_text(f, "group_jid", as_opt_str(&record.group_jid));
    assert(fields_view(f@) =~= fields_view(old(f)@) + call_text_fields(*record));
}

fn push_participant_fields(f: &mut Vec<(String, String)>, record: &HistoryCallLogRecord) -> (r: CoreResult<()>)
    ensures
        match r {
            Ok(_) => (record.participants@.len() > 0 ==> participants_fault(record.participants@) is None)
                && fields_view(final(f)@) == fields_view(old(f)@) + call_participant_fields(*record),
            Err(e) => e is Protocol && record.participants@.len() > 0 && participants_fault(record.participants@)
                == Some(e.detail()),
        },
{
    if record.participants.len() > 0 {
        let json = match history_call_log_participants_json(record.participants.as_slice()) {
            Ok(j) => j,
            Err(e) => return Err(e),
        };
        push_field(f, "participants_count", crate::text::u64_to_string(record.participants.len() as u64));
        push_field(f, "participants", json);
    }
    assert(fields_view(f@) =~= fields_view(old(f)@) + call_participant_fields(*record));
    Ok(())
}

/// The fields of the call record of a call, its time, or the error that
/// its fields give.
fn call_record_fields(record: &HistoryCallLogRecord) -> (r: CoreResult<(Vec<(String, String)>, Option<u64>)>)
    ensures
        match r {
            Ok((f, t)) => call_fields_fault(*record) is None && fields_view(f@) == call_fields(*record) && t
                == match record.start_time {
                Some(s) => Some(s as u64),
                None => None::<u64>,
            },
            Err(e) => e is Protocol && call_fields_fault(*record) == Some(e.detail()),
        },
{
    let mut fields: Vec<(String, String)> = Vec::new();
    push_field(&mut fields, "source", owned("history_call_log"));
    let mut timestamp: Option<u64> = None;
    let mut start_text: Option<String> = None;
    if let Some(t) = record.start_time {
        let st = match non_negative_i64_to_u64(t, "history call log start time") {
            Ok(v) => v,
            Err(e) => return Err(e),
        };
        timestamp = Some(st);
        start_text = Some(crate::text::u64_to_string(st));
    }
    push_named(&mut fields, "start_time", start_text);
    push_enum_fields(&mut fields, record);
    let mut duration_text: Option<String> = None;
    if let Some(d) = record.duration {
        let d = match non_negative_i64_to_u64(d, "history call log duration") {
            Ok(v) => v,
            Err(e) => return Err(e),
        };
        duration_text = Some(crate::text::u64_to_string(d));
    }
    push_named(&mut fields, "duration", duration_text);
    push_flag_fields(&mut fields, record);
    push_text_fields(&mut fields, record);
    match push_participant_fields(&mut fields, record) {
        Ok(_) => {},
        Err(e) => return Err(e),
    }
    Ok((fields, timestamp))
}

/// The call record of the call at position `index` of a history call log.
pub fn history_call_log_event(record: &HistoryCallLogRecord, index: usize) -> (r: CoreResult<HistoryCallEvent>)
    ensures
        match r {
            Ok(e) => call_event_of(*record, index as nat) == Ok::<CallView, Seq<char>>(call_view(e)),
            Err(e) => e is Protocol && call_event_of(*record, index as nat) == Err::<CallView, Seq<char>>(
                e.detail(),
            ),
        },
{
    proof {
        reveal(call_event_of);
    }
    let jids = participant_jid_list(record.participants.as_slice());
    let first = first_present(jids.as_slice());
    let from = match call_log_from_jid(record, first) {
        Ok(f) => f,
        Err(e) => return Err(e),
    };
    let id = history_call_log_id(
        as_opt_str(&record.call_id),
        as_opt_str(&record.scheduled_call_id),
        as_opt_str(&record.call_link_token),
        record.start_time,
        index,
    );
    let call_id: Option<String> = match non_empty_text(&record.call_id) {
        Some(c) => Some(owned(c)),
        None => None,
    };
    let participant = match history_call_log_single_participant(jids.as_slice()) {
        Ok(p) => p,
        Err(e) => return Err(e),
    };
    let (fields, timestamp) = match call_record_fields(record) {
        Ok(ft) => ft,
        Err(e) => return Err(e),
    };
    Ok(HistoryCallEvent { id, from, event_type: owned("history_log"), call_id, participant, timestamp, fields })
}
/// The call records of a call log after those already `done`, each under
/// the limit `max` on their number, or the first refusal.
pub open spec fn fold_calls(done: Seq<CallView>, records: Seq<HistoryCallLogRecord>, max: nat) -> Result<
    Seq<CallView>,
    Refusal,
>
    decreases records.len(),
{
    if records.len() == 0 {
        Ok(done)
    } else {
        match fold_calls(done, records.drop_last(), max) {
            Err(e) => Err(e),
            Ok(d) => if d.len() >= max {
                Err((true, capacity_text("history call logs"@, d.len(), max)))
            } else {
                match call_event_of(records.last(), (records.len() - 1) as nat) {
                    Err(m) => Err((false, m)),
                    Ok(v) => Ok(d.push(v)),
                }
            },
        }
    }
}

proof fn lemma_fold_calls_err(done: Seq<CallView>, records: Seq<HistoryCallLogRecord>, max: nat, j: int, f: Refusal)
    requires
        0 <= j <= records.len(),
        fold_calls(done, records.take(j), max) == Err::<Seq<CallView>, Refusal>(f),
    ensures
        fold_calls(done, records, max) == Err::<Seq<CallView>, Refusal>(f),
    decreases records.len() - j,
{
    if j == records.len() {
        assert(records.take(j) == records);
    } else {
        assert(records.take(j + 1).drop_last() == records.take(j));
        lemma_fold_calls_err(done, records, max, j + 1, f);
    }
}

/// Adds the call record of each call of a call log, in order, while their
/// number stays under `max_calls`.
pub fn push_history_call_log_events(
    calls: &mut Vec<HistoryCallEvent>,
    records: &[HistoryCallLogRecord],
    max_calls: usize,
) -> (r: CoreResult<()>)
    ensures
        match fold_calls(call_views(old(calls)@), records@, max_calls as nat) {
            Ok(v) => r is Ok && call_views(final(calls)@) == v,
            Err(f) => r matches Err(e) && (e is Payload || e is Protocol) && refusal_of(e) == f,
        },
{
    let ghost start = call_views(calls@);
    let mut i: usize = 0;
    assert(records@.take(0) =~= Seq::<HistoryCallLogRecord>::empty());
    while i < records.len()
        invariant
            0 <= i <= records@.len(),
            start == call_views(old(calls)@),
            fold_calls(start, records@.take(i as int), max_calls as nat) == Ok::<Seq<CallView>, Refusal>(
                call_views(calls@),
            ),
        decreases records@.len() - i,
    {
        let ghost t = records@.take(i as int + 1);
        assert(t.drop_last() == records@.take(i as int));
        assert(t.last() == records@[i as int]);
        assert(t.len() - 1 == i);
        match ensure_capacity(calls.len(), max_calls, "history call logs") {
            Ok(_) => {},
            Err(e) => {
                proof {
                    lemma_fold_calls_err(start, records@, max_calls as nat, i as int + 1, refusal_of(e));
                }
                return Err(e);
            },
        }
        match history_call_log_event(&records[i], i) {
            Ok(ev) => {
                let ghost before = calls@;
                calls.push(ev);
                assert(call_views(calls@) =~= call_views(before).push(call_view(ev)));
            },
            Err(e) => {
                proof {
                    lemma_fold_calls_err(start, records@, max_calls as nat, i as int + 1, refusal_of(e));
                }
                return Err(e);
            },
        }
        i = i + 1;
    }
    assert(records@.take(i as int) == records@);
    Ok(())
}

} // verus!
