//! Limits of history synchronisation and the identity bookkeeping it does.

use crate::error::{CoreError, CoreResult};
use crate::jid::{jid_decode, jid_encode, jid_parse, jid_server, jid_text, jid_user, jid_valid, JidServer};
use crate::text::{concat2, concat3, owned, str_eq};
use vstd::prelude::*;

pub mod add_on;
pub mod call_log;
pub mod past_participants;
pub mod stickers;
pub mod web_message;
pub mod processing;

verus! {

pub const DEFAULT_MAX_HISTORY_INFLATED_BYTES: usize = 134_217_728;
pub const DEFAULT_MAX_HISTORY_CHATS: usize = 50_000;
pub const DEFAULT_MAX_HISTORY_CONTACTS: usize = 100_000;
pub const DEFAULT_MAX_HISTORY_MESSAGES: usize = 100_000;

/// How large an inflated history payload may be.
#[derive(Clone, Copy, Debug, PartialEq, Eq, Structural)]
pub struct HistorySyncDecodeConfig {
    pub max_inflated_bytes: usize,
}

impl Default for HistorySyncDecodeConfig {
    fn default() -> (c: Self)
        ensures
            c.max_inflated_bytes == DEFAULT_MAX_HISTORY_INFLATED_BYTES,
    {
        HistorySyncDecodeConfig { max_inflated_bytes: DEFAULT_MAX_HISTORY_INFLATED_BYTES }
    }
}

/// How many items a history payload may hold, and whether it is the most
/// recent one.
#[derive(Clone, Copy, Debug, PartialEq, Eq, Structural)]
pub struct HistorySyncProcessConfig {
    pub max_chats: usize,
    pub max_contacts: usize,
    pub max_messages: usize,
    pub is_latest: bool,
}

impl Default for HistorySyncProcessConfig {
    fn default() -> (c: Self)
        ensures
            c.max_chats == DEFAULT_MAX_HISTORY_CHATS,
            c.max_contacts == DEFAULT_MAX_HISTORY_CONTACTS,
            c.max_messages == DEFAULT_MAX_HISTORY_MESSAGES,
            !c.is_latest,
    {
        HistorySyncProcessConfig {
            max_chats: DEFAULT_MAX_HISTORY_CHATS,
            max_contacts: DEFAULT_MAX_HISTORY_CONTACTS,
            max_messages: DEFAULT_MAX_HISTORY_MESSAGES,
            is_latest: false,
        }
    }
}

impl HistorySyncProcessConfig {
    /// These limits, for the most recent payload or not.
    pub fn latest(self, is_latest: bool) -> (c: Self)
        ensures
            c == (HistorySyncProcessConfig { is_latest, ..self }),
    {
        HistorySyncProcessConfig { is_latest, ..self }
    }
}

/// The kinds of history payload the server sends, by their wire number.
#[derive(Clone, Copy, Debug, PartialEq, Eq, Structural)]
pub enum HistorySyncKind {
    InitialBootstrap,
    InitialStatusV3,
    Full,
    Recent,
    PushName,
    NonBlockingData,
    OnDemand,
}

/// The wire number of each kind.
pub open spec fn sync_kind_number(k: HistorySyncKind) -> int {
    match k {
        HistorySyncKind::InitialBootstrap => 0,
        HistorySyncKind::InitialStatusV3 => 1,
        HistorySyncKind::Full => 2,
        HistorySyncKind::Recent => 3,
        HistorySyncKind::PushName => 4,
        HistorySyncKind::NonBlockingData => 5,
        HistorySyncKind::OnDemand => 6,
    }
}

/// The name each kind has in the protocol's schema.
pub open spec fn sync_kind_name(k: HistorySyncKind) -> Seq<char> {
    match k {
        HistorySyncKind::InitialBootstrap => "INITIAL_BOOTSTRAP"@,
        HistorySyncKind::InitialStatusV3 => "INITIAL_STATUS_V3"@,
        HistorySyncKind::Full => "FULL"@,
        HistorySyncKind::Recent => "RECENT"@,
        HistorySyncKind::PushName => "PUSH_NAME"@,
        HistorySyncKind::NonBlockingData => "NON_BLOCKING_DATA"@,
        HistorySyncKind::OnDemand => "ON_DEMAND"@,
    }
}

/// Which parts of a history payload are read for each kind.
#[derive(Clone, Copy, Debug, PartialEq, Eq, Structural)]
pub struct HistorySyncSections {
    /// The conversations and the messages in them.
    pub conversations: bool,
    /// The status messages.
    pub status_messages: bool,
    /// The push names of contacts.
    pub pushnames: bool,
    /// The accounts of the user.
    pub accounts: bool,
}

impl HistorySyncKind {
    /// The kind with wire number `value`; any other number is refused.
    pub fn from_wire_number(value: i32) -> (r: CoreResult<Self>)
        ensures
            match r {
                Ok(k) => sync_kind_number(k) == value,
                Err(e) => (0 > value || value > 6) && (e matches CoreError::Protocol(m) && m@
                    == "unknown history sync type: "@ + crate::text::signed_decimal(value as int)),
            },
    {
        match value {
            0 => Ok(HistorySyncKind::InitialBootstrap),
            1 => Ok(HistorySyncKind::InitialStatusV3),
            2 => Ok(HistorySyncKind::Full),
            3 => Ok(HistorySyncKind::Recent),
            4 => Ok(HistorySyncKind::PushName),
            5 => Ok(HistorySyncKind::NonBlockingData),
            6 => Ok(HistorySyncKind::OnDemand),
            _ => {
                let n = crate::text::i64_to_string(value as i64);
                Err(CoreError::Protocol(concat2("unknown history sync type: ", n.as_str())))
            },
        }
    }

    /// The wire number of this kind.
    pub fn wire_number(self) -> (n: i32)
        ensures
            n == sync_kind_number(self),
    {
        match self {
            HistorySyncKind::InitialBootstrap => 0,
            HistorySyncKind::InitialStatusV3 => 1,
            HistorySyncKind::Full => 2,
            HistorySyncKind::Recent => 3,
            HistorySyncKind::PushName => 4,
            HistorySyncKind::NonBlockingData => 5,
            HistorySyncKind::OnDemand => 6,
        }
    }

    /// The schema name of this kind, as history events record it.
    pub fn as_str_name(self) -> (s: &'static str)
        ensures
            s@ == sync_kind_name(self),
    {
        match self {
            HistorySyncKind::InitialBootstrap => "INITIAL_BOOTSTRAP",
            HistorySyncKind::InitialStatusV3 => "INITIAL_STATUS_V3",
            HistorySyncKind::Full => "FULL",
            HistorySyncKind::Recent => "RECENT",
            HistorySyncKind::PushName => "PUSH_NAME",
            HistorySyncKind::NonBlockingData => "NON_BLOCKING_DATA",
            HistorySyncKind::OnDemand => "ON_DEMAND",
        }
    }

    /// The parts of the payload that a history sync of this kind reads.
    /// Call logs, past participants, recent stickers and account settings
    /// are read for every kind.
    pub fn sections(self) -> (s: HistorySyncSections)
        ensures
            s.conversations <==> (self is InitialBootstrap || self is Full || self is Recent
                || self is OnDemand),
            s.status_messages <==> !(self is PushName),
            s.pushnames <==> (self is PushName || self is NonBlockingData),
            s.accounts <==> self is NonBlockingData,
    {
        match self {
            HistorySyncKind::InitialBootstrap
            | HistorySyncKind::Full
            | HistorySyncKind::Recent
            | HistorySyncKind::OnDemand => HistorySyncSections {
                conversations: true,
                status_messages: true,
                pushnames: false,
                accounts: false,
            },
            HistorySyncKind::InitialStatusV3 => HistorySyncSections {
                conversations: false,
                status_messages: true,
                pushnames: false,
                accounts: false,
            },
            HistorySyncKind::PushName => HistorySyncSections {
                conversations: false,
                status_messages: false,
                pushnames: true,
                accounts: false,
            },
            HistorySyncKind::NonBlockingData => HistorySyncSections {
                conversations: false,
                status_messages: true,
                pushnames: true,
                accounts: true,
            },
        }
    }
}

/// Each kind is read back from its own wire number, and no two kinds share
/// a number or a name.
pub proof fn lemma_sync_kind_round_trip(k: HistorySyncKind, j: HistorySyncKind)
    ensures
        0 <= sync_kind_number(k) <= 6,
        sync_kind_number(k) == sync_kind_number(j) ==> k == j,
        sync_kind_name(k) == sync_kind_name(j) ==> k == j,
{
    reveal_strlit("INITIAL_BOOTSTRAP");
    reveal_strlit("INITIAL_STATUS_V3");
    reveal_strlit("FULL");
    reveal_strlit("RECENT");
    reveal_strlit("PUSH_NAME");
    reveal_strlit("NON_BLOCKING_DATA");
    reveal_strlit("ON_DEMAND");
    if sync_kind_name(k) == sync_kind_name(j) && k != j {
        let a = sync_kind_name(k);
        let b = sync_kind_name(j);
        assert(a.len() == b.len());
        assert(a[0] == b[0]);
        assert(a[8] == b[8]);
    }
}

/// A LID and the phone-number JID of the same account.
#[derive(Clone, Debug, PartialEq, Eq)]
pub struct HistoryLidPnMapping {
    pub lid_jid: String,
    pub pn_jid: String,
}

/// Refuses one item more than the limit allows.
pub fn ensure_capacity(current: usize, max: usize, label: &str) -> (r: CoreResult<()>)
    ensures
        match r {
            Ok(_) => current < max,
            Err(e) => current >= max && (e matches CoreError::Payload(m) && m@ == label@
                + " exceeds configured item limit: "@ + crate::text::decimal_chars(current as nat)
                + " items reaches "@ + crate::text::decimal_chars(max as nat)),
        },
{
    if current >= max {
        let c = crate::text::u64_to_string(current as u64);
        let m = crate::text::u64_to_string(max as u64);
        let a = concat3(label, " exceeds configured item limit: ", c.as_str());
        let b = concat3(a.as_str(), " items reaches ", m.as_str());
        return Err(CoreError::Payload(b));
    }
    Ok(())
}

/// Refuses a negative number.
pub fn non_negative_i64_to_u64(value: i64, label: &str) -> (r: CoreResult<u64>)
    ensures
        match r {
            Ok(v) => value >= 0 && v == value,
            Err(e) => value < 0 && (e matches CoreError::Protocol(m) && m@ == label@ + " must be non-negative"@),
        },
{
    if value < 0 {
        return Err(CoreError::Protocol(concat2(label, " must be non-negative")));
    }
    Ok(value as u64)
}

/// The text of the error for an empty or invalid JID.
pub open spec fn history_jid_fault(label: Seq<char>, jid: Seq<char>) -> Seq<char> {
    if jid.len() == 0 {
        label + " must not be empty"@
    } else {
        "invalid "@ + label + ": "@ + jid
    }
}

/// The text of the error for a pair that cannot be recorded.
pub open spec fn mapping_fault(lid: Seq<char>, pn: Seq<char>) -> Seq<char> {
    if !jid_valid(lid) {
        history_jid_fault("history LID mapping"@, lid)
    } else {
        history_jid_fault("history PN mapping"@, pn)
    }
}

/// Refuses an empty or invalid JID.
pub(crate) fn validate_history_jid(label: &str, jid: &str) -> (r: CoreResult<()>)
    ensures
        match r {
            Ok(_) => jid_valid(jid@),
            Err(e) => !jid_valid(jid@) && (e matches CoreError::Protocol(m) && m@ == history_jid_fault(
                label@,
                jid@,
            )),
        },
{
    if jid.is_empty() {
        return Err(CoreError::Protocol(concat2(label, " must not be empty")));
    }
    if jid_decode(jid).is_none() {
        let a = concat3("invalid ", label, ": ");
        return Err(CoreError::Protocol(concat2(a.as_str(), jid)));
    }
    Ok(())
}

pub open spec fn mapping_view(m: HistoryLidPnMapping) -> (Seq<char>, Seq<char>) {
    (m.lid_jid@, m.pn_jid@)
}

pub open spec fn mapping_views(s: Seq<HistoryLidPnMapping>) -> Seq<(Seq<char>, Seq<char>)> {
    s.map_values(|m: HistoryLidPnMapping| mapping_view(m))
}

/// Records that a LID and a phone-number JID belong together, once.
pub fn push_mapping(mappings: &mut Vec<HistoryLidPnMapping>, lid_jid: &str, pn_jid: &str) -> (r: CoreResult<()>)
    ensures
        match r {
            Ok(_) => jid_valid(lid_jid@) && jid_valid(pn_jid@) && mapping_views(final(mappings)@) == if mapping_views(
                old(mappings)@,
            ).contains((lid_jid@, pn_jid@)) {
                mapping_views(old(mappings)@)
            } else {
                mapping_views(old(mappings)@).push((lid_jid@, pn_jid@))
            },
            Err(e) => {
                &&& !(jid_valid(lid_jid@) && jid_valid(pn_jid@))
                &&& final(mappings)@ == old(mappings)@
                &&& e matches CoreError::Protocol(m) && m@ == mapping_fault(lid_jid@, pn_jid@)
            },
        },
{
    validate_history_jid("history LID mapping", lid_jid)?;
    validate_history_jid("history PN mapping", pn_jid)?;
    let ghost before = mapping_views(mappings@);
    let mut i: usize = 0;
    while i < mappings.len()
        invariant
            0 <= i <= mappings@.len(),
            before == mapping_views(mappings@),
            mappings@ == old(mappings)@,
            jid_valid(lid_jid@) && jid_valid(pn_jid@),
            forall|j: int| 0 <= j < i ==> #[trigger] before[j] != (lid_jid@, pn_jid@),
        decreases mappings@.len() - i,
    {
        if str_eq(mappings[i].lid_jid.as_str(), lid_jid) && str_eq(mappings[i].pn_jid.as_str(), pn_jid) {
            assert(before[i as int] == (lid_jid@, pn_jid@));
            assert(before.contains((lid_jid@, pn_jid@)));
            return Ok(());
        }
        i = i + 1;
    }
    assert(!before.contains((lid_jid@, pn_jid@)));
    mappings.push(HistoryLidPnMapping { lid_jid: owned(lid_jid), pn_jid: owned(pn_jid) });
    assert(mapping_views(mappings@) == before.push((lid_jid@, pn_jid@)));
    Ok(())
}

/// Lower-case hexadecimal digit of a value below 16.
pub open spec fn lower_hex_digit(d: int) -> char {
    seq!['0', '1', '2', '3', '4', '5', '6', '7', '8', '9', 'a', 'b', 'c', 'd', 'e', 'f'][d]
}

pub open spec fn lower_hex_text(b: Seq<u8>) -> Seq<char>
    decreases b.len(),
{
    if b.len() == 0 {
        Seq::empty()
    } else {
        lower_hex_text(b.drop_last()) + seq![lower_hex_digit((b.last() / 16) as int), lower_hex_digit((b.last() % 16) as int)]
    }
}

fn lower_hex_char(d: u8) -> (c: char)
    requires
        d < 16,
    ensures
        c == lower_hex_digit(d as int),
{
    match d {
        0 => '0',
        1 => '1',
        2 => '2',
        3 => '3',
        4 => '4',
        5 => '5',
        6 => '6',
        7 => '7',
        8 => '8',
        9 => '9',
        10 => 'a',
        11 => 'b',
        12 => 'c',
        13 => 'd',
        14 => 'e',
        _ => 'f',
    }
}

/// Lower-case hexadecimal of some bytes.
pub fn bytes_to_hex(bytes: &[u8]) -> (s: String)
    ensures
        s@ == lower_hex_text(bytes@),
{
    let mut out: Vec<char> = Vec::new();
    let mut i: usize = 0;
    while i < bytes.len()
        invariant
            0 <= i <= bytes@.len(),
            out@ == lower_hex_text(bytes@.take(i as int)),
        decreases bytes@.len() - i,
    {
        let b = bytes[i];
        assert(b >> 4u8 == b / 16 && b & 0x0fu8 == b % 16) by (bit_vector);
        out.push(lower_hex_char(b >> 4));
        out.push(lower_hex_char(b & 0x0f));
        let ghost t = bytes@.take(i as int + 1);
        assert(t.drop_last() == bytes@.take(i as int));
        assert(t.last() == b);
        i = i + 1;
    }
    assert(bytes@.take(bytes@.len() as int) == bytes@);
    crate::text::string_from_chars(out.as_slice())
}

/// `prefix:value` for a value that is non-empty once trimmed of white space.
pub fn non_empty_prefixed(prefix: &str, value: Option<&str>) -> (r: Option<String>)
    ensures
        match value {
            Some(v) => {
                let t = crate::text::trimmed(v@);
                if t.len() > 0 {
                    r matches Some(s) && s@ == prefix@ + ":"@ + t
                } else {
                    r is None
                }
            },
            None => r is None,
        },
{
    match value {
        Some(v) => {
            let t = crate::text::trim(v);
            if t.as_str().is_empty() {
                None
            } else {
                Some(concat3(prefix, ":", t.as_str()))
            }
        },
        None => None,
    }
}

/// The bytes of an optional byte field.
pub open spec fn opt_bytes(o: Option<&[u8]>) -> Option<Seq<u8>> {
    match o {
        Some(b) => Some(b@),
        None => None,
    }
}

/// `prefix:value` for a value that is non-empty once trimmed.
pub open spec fn prefixed(prefix: Seq<char>, value: Option<Seq<char>>) -> Option<Seq<char>> {
    match value {
        Some(v) => if crate::text::trimmed(v).len() > 0 {
            Some(prefix + ":"@ + crate::text::trimmed(v))
        } else {
            None
        },
        None => None,
    }
}

/// The id of a recent sticker: its plaintext digest, else its encrypted
/// digest (both in hexadecimal), else its direct path, image hash or URL,
/// each tagged with its name; `None` when it has none of them.
pub open spec fn sticker_id(
    file_sha256: Option<Seq<u8>>,
    file_enc_sha256: Option<Seq<u8>>,
    direct_path: Option<Seq<char>>,
    image_hash: Option<Seq<char>>,
    url: Option<Seq<char>>,
) -> Option<Seq<char>> {
    if file_sha256 matches Some(b) && b.len() > 0 {
        Some("file_sha256:"@ + lower_hex_text(file_sha256.unwrap()))
    } else if file_enc_sha256 matches Some(b) && b.len() > 0 {
        Some("file_enc_sha256:"@ + lower_hex_text(file_enc_sha256.unwrap()))
    } else if prefixed("direct_path"@, direct_path) is Some {
        prefixed("direct_path"@, direct_path)
    } else if prefixed("image_hash"@, image_hash) is Some {
        prefixed("image_hash"@, image_hash)
    } else {
        prefixed("url"@, url)
    }
}

/// The id under which a recent sticker of a history payload is reported.
pub fn history_recent_sticker_id(
    file_sha256: Option<&[u8]>,
    file_enc_sha256: Option<&[u8]>,
    direct_path: Option<&str>,
    image_hash: Option<&str>,
    url: Option<&str>,
) -> (r: Option<String>)
    ensures
        crate::text::opt_view(r) == sticker_id(
            opt_bytes(file_sha256),
            opt_bytes(file_enc_sha256),
            opt_str(direct_path),
            opt_str(image_hash),
            opt_str(url),
        ),
{
    if let Some(b) = file_sha256 {
        if b.len() > 0 {
            let hex = bytes_to_hex(b);
            return Some(concat2("file_sha256:", hex.as_str()));
        }
    }
    if let Some(b) = file_enc_sha256 {
        if b.len() > 0 {
            let hex = bytes_to_hex(b);
            return Some(concat2("file_enc_sha256:", hex.as_str()));
        }
    }
    if let Some(v) = non_empty_prefixed("direct_path", direct_path) {
        return Some(v);
    }
    if let Some(v) = non_empty_prefixed("image_hash", image_hash) {
        return Some(v);
    }
    non_empty_prefixed("url", url)
}

/// The id of a call of the call log: its call id, else its scheduled call
/// id, else its call link token (the first that is not empty), else one
/// made of its position in the log and its start time (zero when unknown).
pub open spec fn call_log_id(
    call_id: Option<Seq<char>>,
    scheduled_call_id: Option<Seq<char>>,
    call_link_token: Option<Seq<char>>,
    start_time: Option<i64>,
    index: nat,
) -> Seq<char> {
    if call_id matches Some(v) && v.len() > 0 {
        call_id.unwrap()
    } else if scheduled_call_id matches Some(v) && v.len() > 0 {
        scheduled_call_id.unwrap()
    } else if call_link_token matches Some(v) && v.len() > 0 {
        call_link_token.unwrap()
    } else {
        "history-call-"@ + crate::text::decimal_chars(index) + "-"@ + crate::text::signed_decimal(
            match start_time {
                Some(t) => t as int,
                None => 0,
            },
        )
    }
}

/// The id under which a call of a history call log is reported.
pub fn history_call_log_id(
    call_id: Option<&str>,
    scheduled_call_id: Option<&str>,
    call_link_token: Option<&str>,
    start_time: Option<i64>,
    index: usize,
) -> (s: String)
    ensures
        s@ == call_log_id(
            opt_str(call_id),
            opt_str(scheduled_call_id),
            opt_str(call_link_token),
            start_time,
            index as nat,
        ),
{
    if let Some(v) = call_id {
        if !v.is_empty() {
            return owned(v);
        }
    }
    if let Some(v) = scheduled_call_id {
        if !v.is_empty() {
            return owned(v);
        }
    }
    if let Some(v) = call_link_token {
        if !v.is_empty() {
            return owned(v);
        }
    }
    let start: i64 = match start_time {
        Some(t) => t,
        None => 0,
    };
    let n = crate::text::u64_to_string(index as u64);
    let t = crate::text::i64_to_string(start);
    let a = concat3("history-call-", n.as_str(), "-");
    concat2(a.as_str(), t.as_str())
}

/// The participant JIDs of a call that are present and not empty, in order.
pub open spec fn present_jids(v: Seq<Option<String>>) -> Seq<Seq<char>>
    decreases v.len(),
{
    if v.len() == 0 {
        Seq::empty()
    } else {
        present_jids(v.drop_last()) + match v.last() {
            Some(j) => if j@.len() > 0 {
                seq![j@]
            } else {
                Seq::empty()
            },
            None => Seq::empty(),
        }
    }
}

/// The single participant of a call of a history call log: present when
/// exactly one participant JID is given; the first given one must be valid.
pub fn history_call_log_single_participant(participant_jids: &[Option<String>]) -> (r: CoreResult<
    Option<String>,
>)
    ensures
        ({
            let p = present_jids(participant_jids@);
            match r {
                Ok(o) => (p.len() == 0 || jid_valid(p[0])) && crate::text::opt_view(o) == if p.len() == 1 {
                    Some(p[0])
                } else {
                    None
                },
                Err(e) => p.len() > 0 && !jid_valid(p[0]) && (e matches CoreError::Protocol(m) && m@
                    == history_jid_fault("history call log participant JID"@, p[0])),
            }
        }),
{
    let mut present: Vec<String> = Vec::new();
    let mut i: usize = 0;
    while i < participant_jids.len()
        invariant
            0 <= i <= participant_jids@.len(),
            crate::inbound::string_views(present@) == present_jids(participant_jids@.take(i as int)),
        decreases participant_jids@.len() - i,
    {
        let ghost t = participant_jids@.take(i as int + 1);
        assert(t.drop_last() == participant_jids@.take(i as int));
        assert(t.last() == participant_jids@[i as int]);
        if let Some(j) = &participant_jids[i] {
            if !j.as_str().is_empty() {
                present.push(crate::text::clone_string(j));
            }
        }
        i = i + 1;
    }
    assert(participant_jids@.take(i as int) == participant_jids@);
    if present.len() == 0 {
        return Ok(None);
    }
    validate_history_jid("history call log participant JID", present[0].as_str())?;
    if present.len() > 1 {
        return Ok(None);
    }
    Ok(Some(crate::text::clone_string(&present[0])))
}

/// The default disappearing-message setting of a history payload, from its
/// global settings' duration and timestamp: none without a duration; a
/// negative duration or timestamp is refused.
pub fn history_default_disappearing_mode(duration: Option<i32>, timestamp: Option<i64>) -> (r: CoreResult<
    Option<(u32, Option<u64>)>,
>)
    ensures
        match duration {
            None => r matches Ok(None),
            Some(d) => if d < 0 {
                r matches Err(CoreError::Protocol(m)) && m@
                    == "history global settings disappearing duration is negative"@
            } else if timestamp matches Some(t) && t < 0 {
                r matches Err(CoreError::Protocol(m)) && m@
                    == "history global settings disappearing timestamp is negative"@
            } else {
                r matches Ok(Some((rd, rt))) && rd == d && rt == match timestamp {
                    Some(t) => Some(t as u64),
                    None => None,
                }
            },
        },
{
    let d = match duration {
        None => {
            return Ok(None);
        },
        Some(d) => d,
    };
    if d < 0 {
        return Err(crate::error::protocol("history global settings disappearing duration is negative"));
    }
    let t = match timestamp {
        Some(t) => {
            if t < 0 {
                return Err(
                    crate::error::protocol("history global settings disappearing timestamp is negative"),
                );
            }
            Some(t as u64)
        },
        None => None,
    };
    Ok(Some((d as u32, t)))
}

/// Whether an optional byte field is present and not empty.
pub open spec fn bytes_given(o: Option<Seq<u8>>) -> bool {
    o matches Some(b) && b.len() > 0
}

/// When a history sync notification describes downloadable media: a media
/// key and both digests, each of 32 bytes, a file length and a non-empty
/// direct path.
pub open spec fn notification_media_ok(
    media_key: Option<Seq<u8>>,
    file_sha256: Option<Seq<u8>>,
    file_enc_sha256: Option<Seq<u8>>,
    file_length: Option<u64>,
    direct_path: Option<Seq<char>>,
) -> bool {
    &&& media_key matches Some(k) && k.len() == 32
    &&& file_sha256 matches Some(h) && h.len() == 32
    &&& file_enc_sha256 matches Some(h) && h.len() == 32
    &&& file_length is Some
    &&& direct_path matches Some(d) && d.len() > 0
}

/// The text of the error for a notification field that is not 32 bytes.
pub open spec fn notification_len_fault(label: Seq<char>) -> Seq<char> {
    "history sync notification "@ + label + " must be "@ + crate::text::decimal_chars(32) + " bytes"@
}

/// The text of the error for a notification that does not describe
/// downloadable media: the first missing field, then the first field of the
/// wrong length.
pub open spec fn notification_media_fault(
    media_key: Option<Seq<u8>>,
    file_sha256: Option<Seq<u8>>,
    file_enc_sha256: Option<Seq<u8>>,
    file_length: Option<u64>,
) -> Seq<char> {
    if !bytes_given(media_key) {
        "history sync notification missing "@ + "media key"@
    } else if !bytes_given(file_sha256) {
        "history sync notification missing "@ + "file SHA-256"@
    } else if !bytes_given(file_enc_sha256) {
        "history sync notification missing "@ + "encrypted file SHA-256"@
    } else if media_key.unwrap().len() != 32 {
        notification_len_fault("media key"@)
    } else if file_sha256.unwrap().len() != 32 {
        notification_len_fault("file SHA-256"@)
    } else if file_enc_sha256.unwrap().len() != 32 {
        notification_len_fault("encrypted file SHA-256"@)
    } else if file_length is None {
        "history sync notification missing file length"@
    } else {
        "history sync notification missing direct path"@
    }
}

fn required_notification_bytes(bytes: Option<&[u8]>, label: &str) -> (r: CoreResult<Vec<u8>>)
    ensures
        match r {
            Ok(b) => bytes_given(opt_bytes(bytes)) && b@ == opt_bytes(bytes).unwrap(),
            Err(e) => !bytes_given(opt_bytes(bytes)) && (e matches CoreError::Payload(m) && m@
                == "history sync notification missing "@ + label@),
        },
{
    match bytes {
        Some(b) => if b.len() > 0 {
            Ok(crate::text::copy_bytes(b))
        } else {
            Err(CoreError::Payload(concat2("history sync notification missing ", label)))
        },
        None => Err(CoreError::Payload(concat2("history sync notification missing ", label))),
    }
}

fn validate_notification_len(label: &str, bytes: &[u8], expected: usize) -> (r: CoreResult<()>)
    ensures
        match r {
            Ok(_) => bytes@.len() == expected,
            Err(e) => bytes@.len() != expected && (e matches CoreError::Payload(m) && m@
                == "history sync notification "@ + label@ + " must be "@ + crate::text::decimal_chars(
                expected as nat,
            ) + " bytes"@),
        },
{
    if bytes.len() != expected {
        let n = crate::text::u64_to_string(expected as u64);
        let a = concat3("history sync notification ", label, " must be ");
        let b = concat3(a.as_str(), n.as_str(), " bytes");
        return Err(CoreError::Payload(b));
    }
    Ok(())
}

/// The media a history sync notification points at, from its fields.
pub fn uploaded_media_from_history_sync_notification(
    media_key: Option<&[u8]>,
    file_sha256: Option<&[u8]>,
    file_enc_sha256: Option<&[u8]>,
    file_length: Option<u64>,
    direct_path: Option<&str>,
) -> (r: CoreResult<crate::message::UploadedMedia>)
    ensures
        match r {
            Ok(m) => {
                &&& notification_media_ok(
                    opt_bytes(media_key),
                    opt_bytes(file_sha256),
                    opt_bytes(file_enc_sha256),
                    file_length,
                    opt_str(direct_path),
                )
                &&& m@ == (crate::message::UploadedMediaView {
                    url: None,
                    direct_path: opt_str(direct_path),
                    media_key: opt_bytes(media_key).unwrap(),
                    file_sha256: opt_bytes(file_sha256).unwrap(),
                    file_enc_sha256: opt_bytes(file_enc_sha256).unwrap(),
                    file_length: file_length.unwrap(),
                    media_key_timestamp: None,
                })
            },
            Err(e) => !notification_media_ok(
                opt_bytes(media_key),
                opt_bytes(file_sha256),
                opt_bytes(file_enc_sha256),
                file_length,
                opt_str(direct_path),
            ) && (e matches CoreError::Payload(m) && m@ == notification_media_fault(
                opt_bytes(media_key),
                opt_bytes(file_sha256),
                opt_bytes(file_enc_sha256),
                file_length,
            )),
        },
{
    let key = required_notification_bytes(media_key, "media key")?;
    let sha = required_notification_bytes(file_sha256, "file SHA-256")?;
    let enc = required_notification_bytes(file_enc_sha256, "encrypted file SHA-256")?;
    validate_notification_len("media key", key.as_slice(), 32)?;
    validate_notification_len("file SHA-256", sha.as_slice(), 32)?;
    validate_notification_len("encrypted file SHA-256", enc.as_slice(), 32)?;
    let length = match file_length {
        Some(n) => n,
        None => {
            return Err(crate::error::payload("history sync notification missing file length"));
        },
    };
    let path = match direct_path {
        Some(p) => if p.is_empty() {
            return Err(crate::error::payload("history sync notification missing direct path"));
        } else {
            p
        },
        None => {
            return Err(crate::error::payload("history sync notification missing direct path"));
        },
    };
    Ok(crate::message::UploadedMedia::new(key, sha, enc, length).with_direct_path(path))
}

/// Whether a text names a JID with the `@` separator.
pub open spec fn has_at(s: Seq<char>) -> bool {
    s.contains('@')
}

/// The LID of a history account, made canonical: a full JID must be on a
/// LID server and loses its agent and device; a bare user gets the `lid`
/// server. `None` for a blank text; the error's text when refused.
pub open spec fn account_lid(lid: Seq<char>) -> Result<Option<Seq<char>>, Seq<char>> {
    let t = crate::text::trimmed(lid);
    if t.len() == 0 {
        Ok(None)
    } else if has_at(t) {
        if !jid_valid(t) {
            Err("invalid history account LID: "@ + t)
        } else if jid_server(t) == JidServer::Lid || jid_server(t) == JidServer::HostedLid {
            Ok(Some(jid_text(jid_user(t), crate::jid::server_name(jid_server(t)), None, None)))
        } else {
            Err("history account LID must use LID domain: "@ + t)
        }
    } else {
        let j = jid_text(t, "lid"@, None, None);
        match jid_parse(j) {
            Some((user, agent, device, _)) => if user == t && agent.is_none() && device.is_none() {
                Ok(Some(j))
            } else {
                Err("invalid history account bare LID user: "@ + t)
            },
            None => Err("invalid history account bare LID user: "@ + t),
        }
    }
}

/// Makes the LID of a history account canonical; refused when the text is
/// not a LID.
pub fn normalize_history_account_lid(lid: &str) -> (r: CoreResult<Option<String>>)
    ensures
        match r {
            Ok(o) => account_lid(lid@) == Ok::<Option<Seq<char>>, Seq<char>>(crate::text::opt_view(o)),
            Err(e) => e is Protocol && account_lid(lid@) == Err::<Option<Seq<char>>, Seq<char>>(e.detail()),
        },
{
    let t = crate::text::trim(lid);
    if t.as_str().is_empty() {
        return Ok(None);
    }
    let cs = crate::text::chars_of(t.as_str());
    let mut has = false;
    let mut i: usize = 0;
    while i < cs.len()
        invariant
            0 <= i <= cs@.len(),
            cs@ == t@,
            has == exists|j: int| 0 <= j < i && cs@[j] == '@',
        decreases cs@.len() - i,
    {
        if cs[i] == '@' {
            has = true;
        }
        i = i + 1;
    }
    assert(has == has_at(t@)) by {
        if has_at(t@) {
            let j = choose|j: int| 0 <= j < t@.len() && t@[j] == '@';
            assert(cs@[j] == '@');
        }
    }
    if has {
        let decoded = match jid_decode(t.as_str()) {
            Some(d) => d,
            None => {
                return Err(CoreError::Protocol(concat2("invalid history account LID: ", t.as_str())));
            },
        };
        if !(decoded.server == JidServer::Lid || decoded.server == JidServer::HostedLid) {
            return Err(CoreError::Protocol(concat2("history account LID must use LID domain: ", t.as_str())));
        }
        let server = crate::jid::server_str(decoded.server);
        return Ok(Some(jid_encode(decoded.user.as_str(), server, None, None)));
    }
    let jid = jid_encode(t.as_str(), "lid", None, None);
    let decoded = match jid_decode(jid.as_str()) {
        Some(d) => d,
        None => {
            return Err(CoreError::Protocol(concat2("invalid history account bare LID user: ", t.as_str())));
        },
    };
    if !str_eq(decoded.user.as_str(), t.as_str()) || decoded.device.is_some() || decoded.agent.is_some() {
        return Err(CoreError::Protocol(concat2("invalid history account bare LID user: ", t.as_str())));
    }
    Ok(Some(jid))
}

/// Recorded mappings never hold the same pair twice: recording a pair into
/// a list of distinct pairs leaves them distinct.
pub proof fn lemma_recorded_mappings_stay_distinct(before: Seq<(Seq<char>, Seq<char>)>, pair: (Seq<char>, Seq<char>))
    requires
        before.no_duplicates(),
    ensures
        with_pair(before, pair).no_duplicates(),
{
    if !before.contains(pair) {
        assert forall|i: int, j: int| 0 <= i < j < before.push(pair).len() implies before.push(pair)[i]
            != before.push(pair)[j] by {
            if j == before.len() {
                assert(before.push(pair)[i] == before[i]);
            }
        }
    }
}

/// A list of pairs with `pair` recorded once.
pub open spec fn with_pair(v: Seq<(Seq<char>, Seq<char>)>, pair: (Seq<char>, Seq<char>)) -> Seq<(Seq<char>, Seq<char>)> {
    if v.contains(pair) {
        v
    } else {
        v.push(pair)
    }
}

/// A LID-server JID (`lid` or `hosted.lid`).
pub open spec fn on_lid_server(s: Seq<char>) -> bool {
    jid_valid(s) && (jid_server(s) == JidServer::Lid || jid_server(s) == JidServer::HostedLid)
}

/// A phone-number JID (`s.whatsapp.net` or `c.us`).
pub open spec fn on_pn_server(s: Seq<char>) -> bool {
    jid_valid(s) && (jid_server(s) == JidServer::SWhatsAppNet || jid_server(s) == JidServer::CUs)
}

/// Whether a JID is on a LID server.
pub fn is_lid_jid(jid: &str) -> (r: bool)
    ensures
        r == on_lid_server(jid@),
{
    match jid_decode(jid) {
        Some(j) => j.server == JidServer::Lid || j.server == JidServer::HostedLid,
        None => false,
    }
}

/// Whether a JID is a phone-number JID.
pub fn is_pn_jid(jid: &str) -> (r: bool)
    ensures
        r == on_pn_server(jid@),
{
    match jid_decode(jid) {
        Some(j) => j.server == JidServer::SWhatsAppNet || j.server == JidServer::CUs,
        None => false,
    }
}

pub open spec fn opt_str(o: Option<&str>) -> Option<Seq<char>> {
    match o {
        Some(s) => Some(s@),
        None => None,
    }
}

/// When a conversation maps its chat JID (a LID) to its phone number: it
/// names a phone number and the chat is its LID, its account LID or a LID
/// JID.
pub open spec fn chat_is_lid_of(chat: Seq<char>, pn: Option<Seq<char>>, lid: Option<Seq<char>>, account_lid: Option<Seq<char>>) -> bool {
    pn is Some && (lid == Some(chat) || account_lid == Some(chat) || on_lid_server(chat))
}

/// The LID a conversation names: its LID, else its account LID.
pub open spec fn named_lid(lid: Option<Seq<char>>, account_lid: Option<Seq<char>>) -> Option<Seq<char>> {
    if lid is Some {
        lid
    } else {
        account_lid
    }
}

/// Records the LID/phone-number pairs a conversation reveals: its chat JID
/// as the LID of its phone number, and its LID (or account LID) as the LID
/// of a phone-number chat JID.
pub fn collect_conversation_mappings(
    mappings: &mut Vec<HistoryLidPnMapping>,
    chat_jid: &str,
    pn_jid: Option<&str>,
    lid_jid: Option<&str>,
    account_lid: Option<&str>,
) -> (r: CoreResult<()>)
    ensures
        ({
            let first = chat_is_lid_of(chat_jid@, opt_str(pn_jid), opt_str(lid_jid), opt_str(account_lid));
            let first_ok = !first || (jid_valid(chat_jid@) && jid_valid(opt_str(pn_jid).unwrap()));
            let mid = if first {
                with_pair(mapping_views(old(mappings)@), (chat_jid@, opt_str(pn_jid).unwrap()))
            } else {
                mapping_views(old(mappings)@)
            };
            let lid = named_lid(opt_str(lid_jid), opt_str(account_lid));
            let second = lid is Some && on_pn_server(chat_jid@);
            let second_ok = !second || jid_valid(lid.unwrap());
            match r {
                Ok(_) => first_ok && second_ok && mapping_views(final(mappings)@) == if second {
                    with_pair(mid, (lid.unwrap(), chat_jid@))
                } else {
                    mid
                },
                Err(e) => if !first_ok {
                    &&& final(mappings)@ == old(mappings)@
                    &&& e matches CoreError::Protocol(m) && m@ == mapping_fault(chat_jid@, opt_str(pn_jid).unwrap())
                } else {
                    &&& !second_ok
                    &&& mapping_views(final(mappings)@) == mid
                    &&& e matches CoreError::Protocol(m) && m@ == mapping_fault(lid.unwrap(), chat_jid@)
                },
            }
        }),
{
    let chat_lid = match lid_jid {
        Some(l) => str_eq(l, chat_jid),
        None => false,
    } || match account_lid {
        Some(l) => str_eq(l, chat_jid),
        None => false,
    } || is_lid_jid(chat_jid);
    if let Some(pn) = pn_jid {
        if chat_lid {
            push_mapping(mappings, chat_jid, pn)?;
        }
    }
    let lid = match lid_jid {
        Some(l) => Some(l),
        None => account_lid,
    };
    if let Some(l) = lid {
        if is_pn_jid(chat_jid) {
            push_mapping(mappings, l, chat_jid)?;
        }
    }
    Ok(())
}

/// The pairs recorded from a list of phone-number/LID entries (each with
/// both parts present), in order.
pub open spec fn direct_pairs(v: Seq<(Seq<char>, Seq<char>)>, entries: Seq<(Option<String>, Option<String>)>) -> Seq<(Seq<char>, Seq<char>)>
    decreases entries.len(),
{
    if entries.len() == 0 {
        v
    } else {
        let rest = direct_pairs(v, entries.drop_last());
        match entries.last() {
            (Some(pn), Some(lid)) => with_pair(rest, (lid@, pn@)),
            _ => rest,
        }
    }
}

/// Whether every complete phone-number/LID entry names valid JIDs.
pub open spec fn direct_entries_ok(entries: Seq<(Option<String>, Option<String>)>) -> bool {
    forall|i: int|
        0 <= i < entries.len() ==> match #[trigger] entries[i] {
            (Some(pn), Some(lid)) => jid_valid(pn@) && jid_valid(lid@),
            _ => true,
        }
}

/// Records the LID of each phone number a history lists (entries are
/// `(phone-number JID, LID)`; incomplete entries are skipped).
pub fn collect_direct_mappings(
    mappings: &mut Vec<HistoryLidPnMapping>,
    entries: &[(Option<String>, Option<String>)],
) -> (r: CoreResult<()>)
    ensures
        match r {
            Ok(_) => direct_entries_ok(entries@) && mapping_views(final(mappings)@) == direct_pairs(
                mapping_views(old(mappings)@),
                entries@,
            ),
            Err(e) => !direct_entries_ok(entries@) && exists|i: int|
                0 <= i < entries@.len() && direct_entries_ok(entries@.take(i)) && (#[trigger] entries@[i] matches (
                Some(pn), Some(lid)) && !(jid_valid(pn@) && jid_valid(lid@)) && (e matches CoreError::Protocol(m)
                && m@ == mapping_fault(lid@, pn@))),
        },
{
    let ghost start = mapping_views(mappings@);
    let mut i: usize = 0;
    while i < entries.len()
        invariant
            0 <= i <= entries@.len(),
            direct_entries_ok(entries@.take(i as int)),
            mapping_views(mappings@) == direct_pairs(start, entries@.take(i as int)),
        decreases entries@.len() - i,
    {
        let ghost prefix = entries@.take(i as int + 1);
        assert(prefix.drop_last() == entries@.take(i as int));
        assert(prefix.last() == entries@[i as int]);
        match &entries[i] {
            (Some(pn), Some(lid)) => {
                match push_mapping(mappings, lid.as_str(), pn.as_str()) {
                    Ok(_) => {},
                    Err(e) => {
                        assert(!direct_entries_ok(entries@)) by {
                            assert(entries@[i as int] == (Some(*pn), Some(*lid)));
                        }
                        assert(entries@[i as int] == (Some(*pn), Some(*lid)));
                        return Err(e);
                    },
                }
            },
            _ => {},
        }
        assert forall|k: int| 0 <= k < prefix.len() implies match #[trigger] prefix[k] {
            (Some(pn), Some(lid)) => jid_valid(pn@) && jid_valid(lid@),
            _ => true,
        } by {
            if k < i {
                assert(prefix[k] == entries@.take(i as int)[k]);
            }
        }
        i = i + 1;
    }
    assert(entries@.take(entries@.len() as int) == entries@);
    Ok(())
}

/// Checks the declared size of a history blob against the download limit.
pub fn validate_declared_history_size(media: &crate::message::UploadedMedia, max_download: usize) -> (r: CoreResult<()>)
    ensures
        match r {
            Ok(_) => max_download > 0 && media.file_length <= max_download,
            Err(e) => e matches CoreError::Payload(m) && if max_download == 0 {
                m@ == "history sync download size limit must be greater than zero"@
            } else if media.file_length > usize::MAX {
                m@ == "history sync declared size exceeds usize"@
            } else {
                media.file_length > max_download && m@
                    == "history sync declared size exceeds configured limit: "@
                    + crate::text::decimal_chars(media.file_length as nat) + " bytes exceeds "@
                    + crate::text::decimal_chars(max_download as nat)
            },
        },
{
    if max_download == 0 {
        return Err(crate::error::payload("history sync download size limit must be greater than zero"));
    }
    if media.file_length > usize::MAX as u64 {
        return Err(crate::error::payload("history sync declared size exceeds usize"));
    }
    let declared_len = media.file_length as usize;
    if declared_len > max_download {
        let a = crate::text::u64_to_string(declared_len as u64);
        let b = crate::text::u64_to_string(max_download as u64);
        let m1 = concat3("history sync declared size exceeds configured limit: ", a.as_str(), " bytes exceeds ");
        return Err(CoreError::Payload(concat2(m1.as_str(), b.as_str())));
    }
    Ok(())
}

// ---------------------------------------------------------------------------
// Inflating compressed history.
// ---------------------------------------------------------------------------

/// `flate2::read::ZlibDecoder`, so that decoders can be held and read.
#[verifier::external_type_specification]
#[verifier::external_body]
#[verifier::reject_recursive_types(R)]
pub struct ExZlibDecoder<R>(flate2::read::ZlibDecoder<R>);

/// What reading a `flate2::read::ZlibDecoder` over `compressed` to its end
/// gives: all the inflated bytes, or `None` when one of the reads fails.
pub uninterp spec fn zlib_inflated(compressed: Seq<u8>) -> Option<Seq<u8>>;

/// The compressed bytes a decoder inflates.
pub uninterp spec fn zlib_source(d: flate2::read::ZlibDecoder<&[u8]>) -> Seq<u8>;

/// The inflated bytes read from a decoder so far.
pub uninterp spec fn zlib_produced(d: flate2::read::ZlibDecoder<&[u8]>) -> Seq<u8>;

/// `flate2::read::ZlibDecoder::new` over `compressed`: nothing read yet.
#[verifier::external_body]
fn zlib_decoder(compressed: &[u8]) -> (d: flate2::read::ZlibDecoder<&[u8]>)
    ensures
        zlib_source(d) == compressed@,
        zlib_produced(d) == Seq::<u8>::empty(),
{
    flate2::read::ZlibDecoder::new(compressed)
}

/// `std::io::Read::read` on a zlib decoder into `chunk`: the next `n` bytes
/// of the inflation, at most the chunk's length, written at the chunk's
/// start. What is read so far is always the start of the full inflation;
/// reading none into a non-empty chunk means the stream ended, so what was
/// read is all of it; a failure means the stream does not inflate. How many
/// bytes one read gives is the decoder's choice and is not stated, nor is
/// the text of a failure.
#[verifier::external_body]
fn zlib_read(d: &mut flate2::read::ZlibDecoder<&[u8]>, chunk: &mut Vec<u8>) -> (r: Result<usize, String>)
    ensures
        zlib_source(*final(d)) == zlib_source(*old(d)),
        final(chunk)@.len() == old(chunk)@.len(),
        match r {
            Ok(n) => {
                &&& n <= old(chunk)@.len()
                &&& zlib_produced(*final(d)) == zlib_produced(*old(d)) + final(chunk)@.take(n as int)
                &&& zlib_inflated(zlib_source(*final(d))) matches Some(full) ==> zlib_produced(*final(d)).len()
                    <= full.len() && full.take(zlib_produced(*final(d)).len() as int) == zlib_produced(*final(d))
                &&& n == 0 && old(chunk)@.len() > 0 ==> zlib_inflated(zlib_source(*final(d))) == Some(
                    zlib_produced(*final(d)),
                )
            },
            Err(_) => zlib_inflated(zlib_source(*old(d))) is None,
        },
{
    match std::io::Read::read(d, chunk.as_mut_slice()) {
        Ok(n) => Ok(n),
        Err(e) => Err(e.to_string()),
    }
}

/// The text of the error for inflated history over the limit, with `n` the
/// number of bytes it would reach.
pub open spec fn inflate_limit_text(n: nat, max_bytes: usize) -> Seq<char> {
    "inflated history sync exceeds configured limit: "@ + crate::text::decimal_chars(n) + " bytes exceeds "@
        + crate::text::decimal_chars(max_bytes as nat)
}

/// The size of the chunks the inflation is read in.
pub const INFLATE_CHUNK_BYTES: usize = 8192;

fn zeroed(n: usize) -> (v: Vec<u8>)
    ensures
        v@.len() == n,
{
    let mut v: Vec<u8> = Vec::new();
    let mut i: usize = 0;
    while i < n
        invariant
            i <= n,
            v@.len() == i,
        decreases n - i,
    {
        v.push(0);
        i = i + 1;
    }
    v
}

/// Decompresses a zlib stream in chunks of 8192 bytes, refusing it as soon
/// as a chunk would take what was read past `max_bytes` bytes; the error
/// gives the count that chunk reaches (stopping at `usize::MAX`).
pub fn inflate_zlib_bounded(compressed: &[u8], max_bytes: usize) -> (r: CoreResult<Vec<u8>>)
    ensures
        max_bytes == 0 ==> (r matches Err(CoreError::Payload(m)) && m@
            == "history sync inflate limit must be greater than zero"@),
        max_bytes > 0 ==> match r {
            Ok(out) => out@.len() <= max_bytes && zlib_inflated(compressed@) == Some(out@),
            Err(e) => e matches CoreError::Payload(m) && ({
                ||| "failed to inflate history sync: "@.is_prefix_of(m@) && zlib_inflated(compressed@).is_none()
                ||| exists|n: nat|
                    (max_bytes < n || n == usize::MAX) && n <= max_bytes + INFLATE_CHUNK_BYTES && m@
                        == #[trigger] inflate_limit_text(n, max_bytes) && (zlib_inflated(compressed@) matches Some(
                        full) ==> n <= full.len())
            }),
        },
        max_bytes > 0 ==> (zlib_inflated(compressed@) matches Some(full) ==> (r is Ok <==> full.len() <= max_bytes)),
{
    if max_bytes == 0 {
        return Err(crate::error::payload("history sync inflate limit must be greater than zero"));
    }
    let mut decoder = zlib_decoder(compressed);
    let mut output: Vec<u8> = Vec::new();
    let mut chunk = zeroed(INFLATE_CHUNK_BYTES);
    loop
        invariant
            max_bytes > 0,
            chunk@.len() == INFLATE_CHUNK_BYTES,
            zlib_source(decoder) == compressed@,
            zlib_produced(decoder) == output@,
            output@.len() <= max_bytes,
            zlib_inflated(compressed@) matches Some(full) ==> output@.len() <= full.len(),
        decreases max_bytes - output@.len(),
    {
        let read = match zlib_read(&mut decoder, &mut chunk) {
            Ok(n) => n,
            Err(reason) => {
                let m = concat2("failed to inflate history sync: ", reason.as_str());
                assert(m@.take("failed to inflate history sync: "@.len() as int)
                    =~= "failed to inflate history sync: "@);
                return Err(CoreError::Payload(m));
            },
        };
        if read == 0 {
            return Ok(output);
        }
        let total = output.len().saturating_add(read);
        if total > max_bytes || output.len() > usize::MAX - read {
            let a = crate::text::u64_to_string(total as u64);
            let b = crate::text::u64_to_string(max_bytes as u64);
            let m1 = concat3("inflated history sync exceeds configured limit: ", a.as_str(), " bytes exceeds ");
            let m = concat2(m1.as_str(), b.as_str());
            assert(m@ == inflate_limit_text(total as nat, max_bytes));
            return Err(CoreError::Payload(m));
        }
        let ghost before = output@;
        let mut k: usize = 0;
        while k < read
            invariant
                k <= read,
                read <= chunk@.len(),
                output@ == before + chunk@.take(k as int),
            decreases read - k,
        {
            output.push(chunk[k]);
            assert(chunk@.take(k as int + 1) =~= chunk@.take(k as int).push(chunk@[k as int]));
            k = k + 1;
        }
    }
}

} // verus!
