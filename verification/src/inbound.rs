use crate::error::{protocol, CoreError, CoreResult};
use crate::jid::{jid_decode, jid_server_raw, jid_user, jid_valid, same_user, JidServer};
use crate::key::MessageKey;
use crate::node::BinaryNode;
use crate::text::{
    clone_string, concat2, concat3, opt_view, owned, parse_u16, parse_u64, str_eq,
    unsigned_text_value,
};
use vstd::prelude::*;

verus! {

pub const NACK_SENDER_REACHOUT_TIMELOCKED: u16 = 463;
pub const NACK_PARSING_ERROR: u16 = 487;
pub const NACK_UNRECOGNIZED_STANZA: u16 = 488;
pub const NACK_UNRECOGNIZED_STANZA_CLASS: u16 = 489;
pub const NACK_UNRECOGNIZED_STANZA_TYPE: u16 = 490;
pub const NACK_INVALID_PROTOBUF: u16 = 491;
pub const NACK_INVALID_HOSTED_COMPANION_STANZA: u16 = 493;
pub const NACK_MISSING_MESSAGE_SECRET: u16 = 495;
pub const NACK_SIGNAL_ERROR_OLD_COUNTER: u16 = 496;
pub const NACK_MESSAGE_DELETED_ON_PEER: u16 = 499;
pub const NACK_UNHANDLED_ERROR: u16 = 500;
pub const NACK_UNSUPPORTED_ADMIN_REVOKE: u16 = 550;
pub const NACK_UNSUPPORTED_LID_GROUP: u16 = 551;
pub const NACK_DB_OPERATION_FAILED: u16 = 552;

pub const ACK_ERROR_ACCOUNT_RESTRICTED: u16 = 463;
pub const ACK_ERROR_SMAX_INVALID: u16 = 479;

/// Why an inbound stanza is refused.
#[derive(Clone, Copy, Debug, PartialEq, Eq, Structural)]
pub enum NackReason {
    SenderReachoutTimelocked,
    ParsingError,
    UnrecognizedStanza,
    UnrecognizedStanzaClass,
    UnrecognizedStanzaType,
    InvalidProtobuf,
    InvalidHostedCompanionStanza,
    MissingMessageSecret,
    SignalErrorOldCounter,
    MessageDeletedOnPeer,
    UnhandledError,
    UnsupportedAdminRevoke,
    UnsupportedLidGroup,
    DbOperationFailed,
}

impl NackReason {
    pub open spec fn spec_code(self) -> u16 {
        match self {
            NackReason::SenderReachoutTimelocked => NACK_SENDER_REACHOUT_TIMELOCKED,
            NackReason::ParsingError => NACK_PARSING_ERROR,
            NackReason::UnrecognizedStanza => NACK_UNRECOGNIZED_STANZA,
            NackReason::UnrecognizedStanzaClass => NACK_UNRECOGNIZED_STANZA_CLASS,
            NackReason::UnrecognizedStanzaType => NACK_UNRECOGNIZED_STANZA_TYPE,
            NackReason::InvalidProtobuf => NACK_INVALID_PROTOBUF,
            NackReason::InvalidHostedCompanionStanza => NACK_INVALID_HOSTED_COMPANION_STANZA,
            NackReason::MissingMessageSecret => NACK_MISSING_MESSAGE_SECRET,
            NackReason::SignalErrorOldCounter => NACK_SIGNAL_ERROR_OLD_COUNTER,
            NackReason::MessageDeletedOnPeer => NACK_MESSAGE_DELETED_ON_PEER,
            NackReason::UnhandledError => NACK_UNHANDLED_ERROR,
            NackReason::UnsupportedAdminRevoke => NACK_UNSUPPORTED_ADMIN_REVOKE,
            NackReason::UnsupportedLidGroup => NACK_UNSUPPORTED_LID_GROUP,
            NackReason::DbOperationFailed => NACK_DB_OPERATION_FAILED,
        }
    }

    /// The numeric code sent in the `error` attribute of a nack.
    pub fn code(self) -> (c: u16)
        ensures
            c == self.spec_code(),
    {
        match self {
            NackReason::SenderReachoutTimelocked => NACK_SENDER_REACHOUT_TIMELOCKED,
            NackReason::ParsingError => NACK_PARSING_ERROR,
            NackReason::UnrecognizedStanza => NACK_UNRECOGNIZED_STANZA,
            NackReason::UnrecognizedStanzaClass => NACK_UNRECOGNIZED_STANZA_CLASS,
            NackReason::UnrecognizedStanzaType => NACK_UNRECOGNIZED_STANZA_TYPE,
            NackReason::InvalidProtobuf => NACK_INVALID_PROTOBUF,
            NackReason::InvalidHostedCompanionStanza => NACK_INVALID_HOSTED_COMPANION_STANZA,
            NackReason::MissingMessageSecret => NACK_MISSING_MESSAGE_SECRET,
            NackReason::SignalErrorOldCounter => NACK_SIGNAL_ERROR_OLD_COUNTER,
            NackReason::MessageDeletedOnPeer => NACK_MESSAGE_DELETED_ON_PEER,
            NackReason::UnhandledError => NACK_UNHANDLED_ERROR,
            NackReason::UnsupportedAdminRevoke => NACK_UNSUPPORTED_ADMIN_REVOKE,
            NackReason::UnsupportedLidGroup => NACK_UNSUPPORTED_LID_GROUP,
            NackReason::DbOperationFailed => NACK_DB_OPERATION_FAILED,
        }
    }
}

/// An `ack` stanza received from the server.
#[derive(Clone, Debug)]
pub struct InboundAck {
    pub id: String,
    pub class: String,
    pub from: Option<String>,
    pub to: Option<String>,
    pub participant: Option<String>,
    pub recipient: Option<String>,
    pub ack_type: Option<String>,
    pub error_code: Option<u16>,
    pub participant_hash: Option<String>,
}

impl InboundAck {
    /// Whether this acknowledges a message with an error.
    pub fn is_message_error(&self) -> (r: bool)
        ensures
            r == (self.class@ == "message"@ && self.error_code.is_some()),
    {
        str_eq(self.class.as_str(), "message") && self.error_code.is_some()
    }
}

/// The `type` of a receipt stanza.
#[derive(Clone, Debug)]
pub enum InboundReceiptKind {
    Delivery,
    Read,
    ReadSelf,
    HistorySync,
    PeerMessage,
    Sender,
    Inactive,
    Played,
    Retry,
    ServerError,
    Other(String),
}

/// The receipt kind that the wire value `v` stands for (`None` or empty is a
/// delivery receipt; an unknown value is kept as it is).
pub open spec fn receipt_kind_is(k: InboundReceiptKind, v: Option<Seq<char>>) -> bool {
    match v {
        None => k is Delivery,
        Some(s) => if s == ""@ {
            k is Delivery
        } else if s == "read"@ {
            k is Read
        } else if s == "read-self"@ {
            k is ReadSelf
        } else if s == "hist_sync"@ {
            k is HistorySync
        } else if s == "peer_msg"@ {
            k is PeerMessage
        } else if s == "sender"@ {
            k is Sender
        } else if s == "inactive"@ {
            k is Inactive
        } else if s == "played"@ {
            k is Played
        } else if s == "retry"@ {
            k is Retry
        } else if s == "server-error"@ {
            k is ServerError
        } else {
            k matches InboundReceiptKind::Other(x) && x@ == s
        },
    }
}

/// The characters of an optional string slice.
pub open spec fn opt_str_view(v: Option<&str>) -> Option<Seq<char>> {
    match v {
        Some(s) => Some(s@),
        None => None,
    }
}

impl InboundReceiptKind {
    /// The event type reported for this receipt kind.
    pub open spec fn event_type(&self) -> Seq<char> {
        match self {
            InboundReceiptKind::Delivery => "delivery"@,
            InboundReceiptKind::Read => "read"@,
            InboundReceiptKind::ReadSelf => "read-self"@,
            InboundReceiptKind::HistorySync => "hist_sync"@,
            InboundReceiptKind::PeerMessage => "peer_msg"@,
            InboundReceiptKind::Sender => "sender"@,
            InboundReceiptKind::Inactive => "inactive"@,
            InboundReceiptKind::Played => "played"@,
            InboundReceiptKind::Retry => "retry"@,
            InboundReceiptKind::ServerError => "server-error"@,
            InboundReceiptKind::Other(v) => v@,
        }
    }

    /// Classifies the `type` attribute of a receipt.
    pub fn from_wire(value: Option<&str>) -> (k: Self)
        ensures
            receipt_kind_is(k, opt_str_view(value)),
    {
        proof {
            reveal_strlit("");
        }
        match value {
            None => InboundReceiptKind::Delivery,
            Some(v) => {
                if v.is_empty() {
                    assert(v@ =~= ""@);
                    InboundReceiptKind::Delivery
                } else if str_eq(v, "read") {
                    InboundReceiptKind::Read
                } else if str_eq(v, "read-self") {
                    InboundReceiptKind::ReadSelf
                } else if str_eq(v, "hist_sync") {
                    InboundReceiptKind::HistorySync
                } else if str_eq(v, "peer_msg") {
                    InboundReceiptKind::PeerMessage
                } else if str_eq(v, "sender") {
                    InboundReceiptKind::Sender
                } else if str_eq(v, "inactive") {
                    InboundReceiptKind::Inactive
                } else if str_eq(v, "played") {
                    InboundReceiptKind::Played
                } else if str_eq(v, "retry") {
                    InboundReceiptKind::Retry
                } else if str_eq(v, "server-error") {
                    InboundReceiptKind::ServerError
                } else {
                    InboundReceiptKind::Other(owned(v))
                }
            },
        }
    }

    /// The event type reported for this receipt kind.
    pub fn as_event_type(&self) -> (s: &str)
        ensures
            s@ == self.event_type(),
    {
        match self {
            InboundReceiptKind::Delivery => "delivery",
            InboundReceiptKind::Read => "read",
            InboundReceiptKind::ReadSelf => "read-self",
            InboundReceiptKind::HistorySync => "hist_sync",
            InboundReceiptKind::PeerMessage => "peer_msg",
            InboundReceiptKind::Sender => "sender",
            InboundReceiptKind::Inactive => "inactive",
            InboundReceiptKind::Played => "played",
            InboundReceiptKind::Retry => "retry",
            InboundReceiptKind::ServerError => "server-error",
            InboundReceiptKind::Other(v) => v.as_str(),
        }
    }
}

/// A non-empty receipt type read from the wire is reported back unchanged as
/// the receipt's event type; a missing or empty one reads as `delivery`.
pub proof fn lemma_receipt_kind_round_trip(k: InboundReceiptKind, v: Option<Seq<char>>)
    requires
        receipt_kind_is(k, v),
    ensures
        match v {
            Some(s) => s.len() > 0 ==> k.event_type() == s,
            None => k.event_type() == "delivery"@,
        },
        (v is None || v == Some(""@)) ==> k.event_type() == "delivery"@,
{
    reveal_strlit("");
}

/// A receipt stanza received from the server.
#[derive(Clone, Debug)]
pub struct InboundReceipt {
    pub id: String,
    pub from: String,
    pub recipient: Option<String>,
    pub participant: Option<String>,
    pub kind: InboundReceiptKind,
    pub timestamp: Option<u64>,
    pub message_ids: Vec<String>,
}

/// A notification stanza received from the server.
#[derive(Clone, Debug)]
pub struct InboundNotification {
    pub id: String,
    pub from: String,
    pub participant: Option<String>,
    pub notification_type: Option<String>,
    pub timestamp: Option<u64>,
}

/// How the parties of a message are addressed: by LID or by phone number.
#[derive(Clone, Debug)]
pub enum AddressingMode {
    Lid,
    PhoneNumber,
    Other(String),
}

/// The addressing mode that the wire value `v` stands for.
pub open spec fn addressing_mode_is(m: AddressingMode, v: Seq<char>) -> bool {
    if v == "lid"@ {
        m is Lid
    } else if v == "pn"@ || v == ""@ {
        m is PhoneNumber
    } else {
        m matches AddressingMode::Other(x) && x@ == v
    }
}

impl AddressingMode {
    pub open spec fn wire(&self) -> Seq<char> {
        match self {
            AddressingMode::Lid => "lid"@,
            AddressingMode::PhoneNumber => "pn"@,
            AddressingMode::Other(v) => v@,
        }
    }

    /// The wire value of this mode.
    pub fn as_wire_str(&self) -> (s: &str)
        ensures
            s@ == self.wire(),
    {
        match self {
            AddressingMode::Lid => "lid",
            AddressingMode::PhoneNumber => "pn",
            AddressingMode::Other(v) => v.as_str(),
        }
    }
}

/// A non-empty addressing mode read from the wire is written back unchanged.
pub proof fn lemma_addressing_mode_round_trip(m: AddressingMode, v: Seq<char>)
    requires
        addressing_mode_is(m, v),
        v.len() > 0,
    ensures
        m.wire() == v,
{
    reveal_strlit("");
}

/// How a message's parties are addressed, and the alternative identities the
/// server supplied for them.
#[derive(Clone, Debug)]
pub struct AddressingContext {
    pub mode: AddressingMode,
    pub sender_alt: Option<String>,
    pub recipient_alt: Option<String>,
}

/// The kind of chat an inbound message belongs to.
#[derive(Clone, Copy, Debug, PartialEq, Eq, Structural)]
pub enum InboundMessageKind {
    Chat,
    Group,
    PeerBroadcast,
    OtherBroadcast,
    DirectPeerStatus,
    OtherStatus,
    Newsletter,
}

impl InboundMessageKind {
    pub open spec fn name(self) -> Seq<char> {
        match self {
            InboundMessageKind::Chat => "chat"@,
            InboundMessageKind::Group => "group"@,
            InboundMessageKind::PeerBroadcast => "peer_broadcast"@,
            InboundMessageKind::OtherBroadcast => "other_broadcast"@,
            InboundMessageKind::DirectPeerStatus => "direct_peer_status"@,
            InboundMessageKind::OtherStatus => "other_status"@,
            InboundMessageKind::Newsletter => "newsletter"@,
        }
    }

    /// The name of this kind.
    pub fn as_str(self) -> (s: &'static str)
        ensures
            s@ == self.name(),
    {
        match self {
            InboundMessageKind::Chat => "chat",
            InboundMessageKind::Group => "group",
            InboundMessageKind::PeerBroadcast => "peer_broadcast",
            InboundMessageKind::OtherBroadcast => "other_broadcast",
            InboundMessageKind::DirectPeerStatus => "direct_peer_status",
            InboundMessageKind::OtherStatus => "other_status",
            InboundMessageKind::Newsletter => "newsletter",
        }
    }
}

/// Routing metadata of an inbound message stanza.
#[derive(Clone, Debug)]
pub struct InboundMessageInfo {
    pub key: MessageKey,
    pub kind: InboundMessageKind,
    pub author: String,
    pub sender: String,
    pub category: Option<String>,
    pub push_name: Option<String>,
    pub timestamp: Option<u64>,
    pub addressing: AddressingContext,
}

/// The Signal ciphertext kind of an `enc` payload.
#[derive(Clone, Copy, Debug, PartialEq, Eq, Structural)]
pub enum InboundCiphertextType {
    Message,
    PreKey,
    SenderKey,
}

impl InboundCiphertextType {
    pub open spec fn wire(self) -> Seq<char> {
        match self {
            InboundCiphertextType::Message => "msg"@,
            InboundCiphertextType::PreKey => "pkmsg"@,
            InboundCiphertextType::SenderKey => "skmsg"@,
        }
    }

    /// The ciphertext kind named by `value`; any other value is refused.
    pub fn from_wire(value: &str) -> (r: CoreResult<Self>)
        ensures
            match r {
                Ok(t) => t.wire() == value@,
                Err(e) => value@ != "msg"@ && value@ != "pkmsg"@ && value@ != "skmsg"@ && (
                e matches CoreError::Protocol(m) && m@ == "unsupported inbound ciphertext type: "@ + value@),
            },
    {
        if str_eq(value, "msg") {
            Ok(InboundCiphertextType::Message)
        } else if str_eq(value, "pkmsg") {
            Ok(InboundCiphertextType::PreKey)
        } else if str_eq(value, "skmsg") {
            Ok(InboundCiphertextType::SenderKey)
        } else {
            Err(CoreError::Protocol(concat2("unsupported inbound ciphertext type: ", value)))
        }
    }

    /// The wire name of this ciphertext kind.
    pub fn as_wire_type(self) -> (s: &'static str)
        ensures
            s@ == self.wire(),
    {
        match self {
            InboundCiphertextType::Message => "msg",
            InboundCiphertextType::PreKey => "pkmsg",
            InboundCiphertextType::SenderKey => "skmsg",
        }
    }
}

/// Reading a ciphertext kind back from its wire name gives the same kind.
pub proof fn lemma_ciphertext_type_round_trip(t: InboundCiphertextType, u: InboundCiphertextType)
    requires
        u.wire() == t.wire(),
    ensures
        u == t,
{
    reveal_strlit("msg");
    reveal_strlit("pkmsg");
    reveal_strlit("skmsg");
    assert("msg"@.len() != "pkmsg"@.len());
    assert("msg"@.len() != "skmsg"@.len());
    assert("pkmsg"@[0] != "skmsg"@[0]);
}

/// How a payload of an inbound message arrived.
#[derive(Clone, Copy, Debug, PartialEq, Eq, Structural)]
pub enum InboundPayloadKind {
    Plaintext,
    Encrypted(InboundCiphertextType),
}

impl InboundPayloadKind {
    pub open spec fn name(self) -> Seq<char> {
        match self {
            InboundPayloadKind::Plaintext => "plaintext"@,
            InboundPayloadKind::Encrypted(t) => t.wire(),
        }
    }

    /// `plaintext`, or the wire name of the ciphertext kind.
    pub fn as_str(&self) -> (s: &'static str)
        ensures
            s@ == self.name(),
    {
        match self {
            InboundPayloadKind::Plaintext => "plaintext",
            InboundPayloadKind::Encrypted(t) => t.as_wire_type(),
        }
    }
}

/// An encrypted payload handed to the session layer for decryption.
#[derive(Clone, Debug)]
pub struct InboundEncryptedPayload {
    pub sender_jid: String,
    pub chat_jid: String,
    pub ciphertext_type: InboundCiphertextType,
    pub ciphertext: Vec<u8>,
}

// ---------------------------------------------------------------------------
// Attribute rules shared by the stanza parsers.
// ---------------------------------------------------------------------------

/// A usable address: a JID with a non-empty user and a non-empty server.
pub open spec fn addr_ok(s: Seq<char>) -> bool {
    jid_valid(s) && jid_user(s).len() > 0 && jid_server_raw(s).len() > 0
}

/// Attribute `k` of `n` when it is present and not empty.
pub open spec fn non_empty_attr(n: BinaryNode, k: Seq<char>) -> Option<Seq<char>> {
    match n.attr(k) {
        Some(v) => if v.len() > 0 {
            Some(v)
        } else {
            None
        },
        None => None,
    }
}

/// Attribute `k` is present and a usable address.
pub open spec fn jid_attr_ok(n: BinaryNode, k: Seq<char>) -> bool {
    match n.attr(k) {
        Some(v) => addr_ok(v),
        None => false,
    }
}

/// Attribute `k` is absent or a usable address.
pub open spec fn opt_jid_attr_ok(n: BinaryNode, k: Seq<char>) -> bool {
    match n.attr(k) {
        Some(v) => addr_ok(v),
        None => true,
    }
}

/// The `u16` that the text `v` spells, if it spells one.
pub open spec fn u16_of(v: Seq<char>) -> Option<u16> {
    match unsigned_text_value(v) {
        Some(x) => if x <= u16::MAX {
            Some(x as u16)
        } else {
            None
        },
        None => None,
    }
}

/// The `u64` that the text `v` spells, if it spells one.
pub open spec fn u64_of(v: Seq<char>) -> Option<u64> {
    match unsigned_text_value(v) {
        Some(x) => if x <= u64::MAX {
            Some(x as u64)
        } else {
            None
        },
        None => None,
    }
}

/// Attribute `k` is absent or a `u16`.
pub open spec fn opt_u16_attr_ok(n: BinaryNode, k: Seq<char>) -> bool {
    match n.attr(k) {
        Some(v) => u16_of(v).is_some(),
        None => true,
    }
}

pub open spec fn opt_u16_attr(n: BinaryNode, k: Seq<char>) -> Option<u16> {
    match n.attr(k) {
        Some(v) => u16_of(v),
        None => None,
    }
}

/// Attribute `k` is absent or a `u64`.
pub open spec fn opt_u64_attr_ok(n: BinaryNode, k: Seq<char>) -> bool {
    match n.attr(k) {
        Some(v) => u64_of(v).is_some(),
        None => true,
    }
}

pub open spec fn opt_u64_attr(n: BinaryNode, k: Seq<char>) -> Option<u64> {
    match n.attr(k) {
        Some(v) => u64_of(v),
        None => None,
    }
}

proof fn lemma_addr_non_empty(s: Seq<char>)
    requires
        addr_ok(s),
    ensures
        s.len() > 0,
{
}

/// Refuses an empty value.
pub fn validate_non_empty(label: &str, value: &str) -> (r: CoreResult<()>)
    ensures
        match r {
            Ok(_) => value@.len() > 0,
            Err(e) => value@.len() == 0 && (e matches CoreError::Protocol(m) && m@ == label@ + " must not be empty"@),
        },
{
    if value.is_empty() {
        Err(CoreError::Protocol(concat2(label, " must not be empty")))
    } else {
        Ok(())
    }
}

/// Refuses a value that is not a JID with a user and a server.
pub fn validate_jid(label: &str, value: &str) -> (r: CoreResult<()>)
    ensures
        match r {
            Ok(_) => addr_ok(value@),
            Err(e) => !addr_ok(value@) && (e matches CoreError::Protocol(m) && m@ == "invalid "@ + label@ + ": "@
                + value@),
        },
{
    let invalid = match jid_decode(value) {
        None => true,
        Some(j) => j.user.as_str().is_empty() || j.server_raw.as_str().is_empty(),
    };
    if invalid {
        let prefix = concat3("invalid ", label, ": ");
        Err(CoreError::Protocol(concat2(prefix.as_str(), value)))
    } else {
        Ok(())
    }
}

/// The text of the error for a node whose tag is not `expected`.
pub open spec fn tag_fault(n: BinaryNode, expected: Seq<char>) -> Seq<char> {
    "expected "@ + expected + " node, got "@ + n.tag@
}

/// The text of the error for an empty value.
pub open spec fn empty_fault(label: Seq<char>) -> Seq<char> {
    label + " must not be empty"@
}

/// The text of the error for a value that is not a usable address.
pub open spec fn jid_fault(label: Seq<char>, v: Seq<char>) -> Seq<char> {
    "invalid "@ + label + ": "@ + v
}

/// The text of the error for a required attribute that is absent or empty.
pub open spec fn required_attr_fault(n: BinaryNode, k: Seq<char>) -> Seq<char> {
    match n.attr(k) {
        None => n.tag@ + " node missing "@ + k + " attribute"@,
        Some(_) => empty_fault(k),
    }
}

/// The text of the error for a required address attribute that is unusable.
pub open spec fn required_jid_fault(n: BinaryNode, k: Seq<char>) -> Seq<char> {
    if non_empty_attr(n, k).is_none() {
        required_attr_fault(n, k)
    } else {
        jid_fault(k, n.attr(k).unwrap())
    }
}

/// The text of the error for an optional address attribute that is unusable.
pub open spec fn opt_jid_fault(n: BinaryNode, k: Seq<char>) -> Seq<char> {
    if n.attr(k).unwrap().len() == 0 {
        empty_fault(k)
    } else {
        jid_fault(k, n.attr(k).unwrap())
    }
}

/// The reason the standard library gives for text that is not an unsigned
/// integer of the wanted width.
pub open spec fn integer_fault(v: Seq<char>) -> Seq<char> {
    if v.len() == 0 {
        "cannot parse integer from empty string"@
    } else if unsigned_text_value(v).is_some() {
        "number too large to fit in target type"@
    } else {
        "invalid digit found in string"@
    }
}

/// The text of the error for a numeric attribute that does not parse.
pub open spec fn int_attr_fault(n: BinaryNode, k: Seq<char>) -> Seq<char> {
    "invalid "@ + k + " attribute: "@ + integer_fault(n.attr(k).unwrap())
}

fn ensure_tag(node: &BinaryNode, expected: &str) -> (r: CoreResult<()>)
    ensures
        match r {
            Ok(_) => node.tag@ == expected@,
            Err(e) => node.tag@ != expected@ && (e matches CoreError::Protocol(m) && m@ == tag_fault(
                *node,
                expected@,
            )),
        },
{
    if str_eq(node.tag.as_str(), expected) {
        Ok(())
    } else {
        let prefix = concat3("expected ", expected, " node, got ");
        Err(CoreError::Protocol(concat2(prefix.as_str(), node.tag.as_str())))
    }
}

fn required_attr<'a>(node: &'a BinaryNode, attr: &str) -> (r: CoreResult<&'a str>)
    ensures
        match r {
            Ok(v) => non_empty_attr(*node, attr@) == Some(v@),
            Err(e) => non_empty_attr(*node, attr@).is_none() && (e matches CoreError::Protocol(m) && m@
                == required_attr_fault(*node, attr@)),
        },
{
    match node.attr_str(attr) {
        None => {
            let prefix = concat3(node.tag.as_str(), " node missing ", attr);
            Err(CoreError::Protocol(concat2(prefix.as_str(), " attribute")))
        },
        Some(v) => {
            validate_non_empty(attr, v)?;
            Ok(v)
        },
    }
}

fn required_jid_attr(node: &BinaryNode, attr: &str) -> (r: CoreResult<String>)
    ensures
        match r {
            Ok(v) => node.attr(attr@) == Some(v@) && addr_ok(v@),
            Err(e) => !jid_attr_ok(*node, attr@) && (e matches CoreError::Protocol(m) && m@
                == required_jid_fault(*node, attr@)),
        },
{
    let jid = match required_attr(node, attr) {
        Ok(v) => v,
        Err(e) => {
            proof {
                if jid_attr_ok(*node, attr@) {
                    lemma_addr_non_empty(node.attr(attr@).unwrap());
                }
            }
            return Err(e);
        },
    };
    validate_jid(attr, jid)?;
    Ok(owned(jid))
}

fn optional_jid_attr(node: &BinaryNode, attr: &str) -> (r: CoreResult<Option<String>>)
    ensures
        match r {
            Ok(v) => opt_jid_attr_ok(*node, attr@) && opt_view(v) == node.attr(attr@),
            Err(e) => !opt_jid_attr_ok(*node, attr@) && (e matches CoreError::Protocol(m) && m@
                == opt_jid_fault(*node, attr@)),
        },
{
    match node.attr_str(attr) {
        None => Ok(None),
        Some(v) => {
            validate_non_empty(attr, v)?;
            validate_jid(attr, v)?;
            Ok(Some(owned(v)))
        },
    }
}

fn optional_non_empty_attr(node: &BinaryNode, attr: &str) -> (r: Option<String>)
    ensures
        opt_view(r) == non_empty_attr(*node, attr@),
{
    match node.attr_str(attr) {
        Some(v) => if v.is_empty() {
            None
        } else {
            Some(owned(v))
        },
        None => None,
    }
}

/// The text of `integer_fault`, computed.
fn integer_error_text(value: &str) -> (s: &'static str)
    ensures
        s@ == integer_fault(value@),
{
    if value.is_empty() {
        "cannot parse integer from empty string"
    } else if is_unsigned_text(value) {
        "number too large to fit in target type"
    } else {
        "invalid digit found in string"
    }
}

/// Whether `value` is an optional `+` followed by one or more ASCII digits.
fn is_unsigned_text(value: &str) -> (r: bool)
    ensures
        r == unsigned_text_value(value@).is_some(),
{
    let cs = crate::text::chars_of(value);
    let start: usize = if cs.len() > 0 && cs[0] == '+' {
        1
    } else {
        0
    };
    let ghost d = if value@.len() > 0 && value@[0] == '+' {
        value@.drop_first()
    } else {
        value@
    };
    assert(d == cs@.subrange(start as int, cs@.len() as int));
    if start >= cs.len() {
        assert(d.len() == 0);
        assert(cs@ == value@);
        assert(unsigned_text_value(value@).is_none());
        return false;
    }
    let mut i = start;
    assert(unsigned_text_value(value@).is_some() == (d.len() > 0 && crate::text::all_digits(d)));
    while i < cs.len()
        invariant
            start <= i <= cs@.len(),
            d == cs@.subrange(start as int, cs@.len() as int),
            unsigned_text_value(value@).is_some() == (d.len() > 0 && crate::text::all_digits(d)),
            forall|j: int| start <= j < i ==> crate::text::is_digit(#[trigger] cs@[j]),
        decreases cs@.len() - i,
    {
        if !('0' <= cs[i] && cs[i] <= '9') {
            assert(!crate::text::is_digit(d[i - start]));
            return false;
        }
        i = i + 1;
    }
    assert(crate::text::all_digits(d)) by {
        assert forall|j: int| 0 <= j < d.len() implies crate::text::is_digit(#[trigger] d[j]) by {
            assert(d[j] == cs@[j + start]);
        }
    }
    true
}

fn parse_u16_attr(value: &str, attr: &str) -> (r: CoreResult<u16>)
    ensures
        match r {
            Ok(v) => u16_of(value@) == Some(v),
            Err(e) => u16_of(value@).is_none() && (e matches CoreError::Protocol(m) && m@ == "invalid "@
                + attr@ + " attribute: "@ + integer_fault(value@)),
        },
{
    match parse_u16(value) {
        Some(v) => Ok(v),
        None => {
            let prefix = concat3("invalid ", attr, " attribute: ");
            Err(CoreError::Protocol(concat2(prefix.as_str(), integer_error_text(value))))
        },
    }
}

fn parse_u64_attr(value: &str, attr: &str) -> (r: CoreResult<u64>)
    ensures
        match r {
            Ok(v) => u64_of(value@) == Some(v),
            Err(e) => u64_of(value@).is_none() && (e matches CoreError::Protocol(m) && m@ == "invalid "@
                + attr@ + " attribute: "@ + integer_fault(value@)),
        },
{
    match parse_u64(value) {
        Some(v) => Ok(v),
        None => {
            let prefix = concat3("invalid ", attr, " attribute: ");
            Err(CoreError::Protocol(concat2(prefix.as_str(), integer_error_text(value))))
        },
    }
}

fn optional_u16_attr(node: &BinaryNode, attr: &str) -> (r: CoreResult<Option<u16>>)
    ensures
        match r {
            Ok(v) => opt_u16_attr_ok(*node, attr@) && v == opt_u16_attr(*node, attr@),
            Err(e) => !opt_u16_attr_ok(*node, attr@) && (e matches CoreError::Protocol(m) && m@
                == int_attr_fault(*node, attr@)),
        },
{
    match node.attr_str(attr) {
        None => Ok(None),
        Some(v) => {
            let n = parse_u16_attr(v, attr)?;
            Ok(Some(n))
        },
    }
}

fn optional_u64_attr(node: &BinaryNode, attr: &str) -> (r: CoreResult<Option<u64>>)
    ensures
        match r {
            Ok(v) => opt_u64_attr_ok(*node, attr@) && v == opt_u64_attr(*node, attr@),
            Err(e) => !opt_u64_attr_ok(*node, attr@) && (e matches CoreError::Protocol(m) && m@
                == int_attr_fault(*node, attr@)),
        },
{
    match node.attr_str(attr) {
        None => Ok(None),
        Some(v) => {
            let n = parse_u64_attr(v, attr)?;
            Ok(Some(n))
        },
    }
}

// ---------------------------------------------------------------------------
// Acknowledgements.
// ---------------------------------------------------------------------------

/// The attribute names that an acknowledgement can carry are all different.
proof fn lemma_ack_keys_distinct()
    ensures
        "id"@ != "to"@,
        "id"@ != "class"@,
        "id"@ != "error"@,
        "id"@ != "participant"@,
        "id"@ != "recipient"@,
        "id"@ != "type"@,
        "id"@ != "from"@,
        "to"@ != "class"@,
        "to"@ != "error"@,
        "to"@ != "participant"@,
        "to"@ != "recipient"@,
        "to"@ != "type"@,
        "to"@ != "from"@,
        "class"@ != "error"@,
        "class"@ != "participant"@,
        "class"@ != "recipient"@,
        "class"@ != "type"@,
        "class"@ != "from"@,
        "error"@ != "participant"@,
        "error"@ != "recipient"@,
        "error"@ != "type"@,
        "error"@ != "from"@,
        "participant"@ != "recipient"@,
        "participant"@ != "type"@,
        "participant"@ != "from"@,
        "recipient"@ != "type"@,
        "recipient"@ != "from"@,
        "type"@ != "from"@,
{
    reveal_strlit("id");
    reveal_strlit("to");
    reveal_strlit("class");
    reveal_strlit("error");
    reveal_strlit("participant");
    reveal_strlit("recipient");
    reveal_strlit("type");
    reveal_strlit("from");
    assert("id"@[0] != "to"@[0]);
    assert("class"@[0] != "error"@[0]);
    assert("type"@[0] != "from"@[0]);
    assert("to"@.len() != "type"@.len());
    assert("participant"@.len() != "recipient"@.len());
}

/// When an acknowledgement can be built for `received`: it names a class, an
/// id and a sender, and every address it copies is usable.
pub open spec fn ack_ok(received: BinaryNode, local: Option<Seq<char>>) -> bool {
    &&& received.tag@.len() > 0
    &&& non_empty_attr(received, "id"@).is_some()
    &&& jid_attr_ok(received, "from"@)
    &&& (local matches Some(l) ==> addr_ok(l))
    &&& opt_jid_attr_ok(received, "participant"@)
    &&& opt_jid_attr_ok(received, "recipient"@)
}

/// Attribute `k` of the acknowledgement of `received`.
pub open spec fn ack_attr(
    received: BinaryNode,
    local: Option<Seq<char>>,
    error_code: Option<u16>,
    k: Seq<char>,
) -> Option<Seq<char>> {
    if k == "id"@ {
        received.attr("id"@)
    } else if k == "to"@ {
        received.attr("from"@)
    } else if k == "class"@ {
        Some(received.tag@)
    } else if k == "error"@ {
        match error_code {
            Some(c) => Some(crate::text::decimal_chars(c as nat)),
            None => None,
        }
    } else if k == "participant"@ {
        received.attr("participant"@)
    } else if k == "recipient"@ {
        received.attr("recipient"@)
    } else if k == "type"@ {
        non_empty_attr(received, "type"@)
    } else if k == "from"@ {
        if received.tag@ == "message"@ {
            local
        } else {
            None
        }
    } else {
        None
    }
}

/// The text of the error for a stanza that cannot be acknowledged: the first
/// rule of `ack_ok` that it breaks.
pub open spec fn ack_fault(received: BinaryNode, local: Option<Seq<char>>) -> Seq<char> {
    if received.tag@.len() == 0 {
        empty_fault("ack class"@)
    } else if non_empty_attr(received, "id"@).is_none() {
        required_attr_fault(received, "id"@)
    } else if non_empty_attr(received, "from"@).is_none() {
        required_attr_fault(received, "from"@)
    } else if !addr_ok(received.attr("from"@).unwrap()) {
        jid_fault("ack destination JID"@, received.attr("from"@).unwrap())
    } else if local matches Some(l) && !addr_ok(l) {
        jid_fault("ack sender JID"@, local.unwrap())
    } else if !opt_jid_attr_ok(received, "participant"@) {
        jid_fault("ack participant JID"@, received.attr("participant"@).unwrap())
    } else {
        jid_fault("ack recipient JID"@, received.attr("recipient"@).unwrap())
    }
}

/// The `ack` stanza answering `received`, optionally with an error code.
pub fn build_ack_node(received: &BinaryNode, local_jid: Option<&str>, error_code: Option<u16>) -> (r:
    CoreResult<BinaryNode>)
    ensures
        match r {
            Ok(ack) => {
                &&& ack_ok(*received, opt_str_view(local_jid))
                &&& ack.tag@ == "ack"@
                &&& ack.content.is_none()
                &&& forall|k: Seq<char>|
                    #[trigger] ack.attr(k) == ack_attr(
                        *received,
                        opt_str_view(local_jid),
                        error_code,
                        k,
                    )
            },
            Err(e) => !ack_ok(*received, opt_str_view(local_jid)) && (e matches CoreError::Protocol(m)
                && m@ == ack_fault(*received, opt_str_view(local_jid))),
        },
{
    validate_non_empty("ack class", received.tag.as_str())?;
    let id = required_attr(received, "id")?;
    let to = match required_attr(received, "from") {
        Ok(v) => v,
        Err(e) => {
            proof {
                if jid_attr_ok(*received, "from"@) {
                    lemma_addr_non_empty(received.attr("from"@).unwrap());
                }
            }
            return Err(e);
        },
    };
    validate_jid("ack destination JID", to)?;
    if let Some(local) = local_jid {
        validate_jid("ack sender JID", local)?;
    }
    let participant = received.attr_str("participant");
    if let Some(p) = participant {
        validate_jid("ack participant JID", p)?;
    }
    let recipient = received.attr_str("recipient");
    if let Some(p) = recipient {
        validate_jid("ack recipient JID", p)?;
    }
    let mut ack = BinaryNode::new("ack").with_attr("id", id).with_attr("to", to).with_attr(
        "class",
        received.tag.as_str(),
    );
    if let Some(code) = error_code {
        let text = crate::text::u64_to_string(code as u64);
        ack = ack.with_attr("error", text.as_str());
    }
    if let Some(p) = participant {
        ack = ack.with_attr("participant", p);
    }
    if let Some(p) = recipient {
        ack = ack.with_attr("recipient", p);
    }
    if let Some(t) = received.attr_str("type") {
        if !t.is_empty() {
            ack = ack.with_attr("type", t);
        }
    }
    if str_eq(received.tag.as_str(), "message") {
        if let Some(local) = local_jid {
            ack = ack.with_attr("from", local);
        }
    }
    proof {
        lemma_ack_keys_distinct();
    }
    Ok(ack)
}

/// The `ack` stanza refusing `received` for `reason`.
pub fn build_nack_node(received: &BinaryNode, local_jid: Option<&str>, reason: NackReason) -> (r:
    CoreResult<BinaryNode>)
    ensures
        match r {
            Ok(ack) => {
                &&& ack_ok(*received, opt_str_view(local_jid))
                &&& ack.tag@ == "ack"@
                &&& ack.content.is_none()
                &&& forall|k: Seq<char>|
                    #[trigger] ack.attr(k) == ack_attr(
                        *received,
                        opt_str_view(local_jid),
                        Some(reason.spec_code()),
                        k,
                    )
            },
            Err(e) => !ack_ok(*received, opt_str_view(local_jid)) && (e matches CoreError::Protocol(m)
                && m@ == ack_fault(*received, opt_str_view(local_jid))),
        },
{
    build_ack_node(received, local_jid, Some(reason.code()))
}

/// When an `ack` stanza from the server is well formed.
pub open spec fn inbound_ack_ok(node: BinaryNode) -> bool {
    &&& node.tag@ == "ack"@
    &&& non_empty_attr(node, "id"@).is_some()
    &&& non_empty_attr(node, "class"@).is_some()
    &&& opt_u16_attr_ok(node, "error"@)
    &&& opt_jid_attr_ok(node, "from"@)
    &&& opt_jid_attr_ok(node, "to"@)
    &&& opt_jid_attr_ok(node, "participant"@)
    &&& opt_jid_attr_ok(node, "recipient"@)
}

/// The text of the error for a malformed `ack` stanza: the first rule of
/// `inbound_ack_ok` that it breaks.
pub open spec fn inbound_ack_fault(node: BinaryNode) -> Seq<char> {
    if node.tag@ != "ack"@ {
        tag_fault(node, "ack"@)
    } else if non_empty_attr(node, "id"@).is_none() {
        required_attr_fault(node, "id"@)
    } else if non_empty_attr(node, "class"@).is_none() {
        required_attr_fault(node, "class"@)
    } else if !opt_u16_attr_ok(node, "error"@) {
        int_attr_fault(node, "error"@)
    } else if !opt_jid_attr_ok(node, "from"@) {
        opt_jid_fault(node, "from"@)
    } else if !opt_jid_attr_ok(node, "to"@) {
        opt_jid_fault(node, "to"@)
    } else if !opt_jid_attr_ok(node, "participant"@) {
        opt_jid_fault(node, "participant"@)
    } else {
        opt_jid_fault(node, "recipient"@)
    }
}

/// Reads an `ack` stanza sent by the server.
pub fn parse_inbound_ack(node: &BinaryNode) -> (r: CoreResult<InboundAck>)
    ensures
        match r {
            Ok(a) => {
                &&& inbound_ack_ok(*node)
                &&& Some(a.id@) == node.attr("id"@)
                &&& Some(a.class@) == node.attr("class"@)
                &&& opt_view(a.from) == node.attr("from"@)
                &&& opt_view(a.to) == node.attr("to"@)
                &&& opt_view(a.participant) == node.attr("participant"@)
                &&& opt_view(a.recipient) == node.attr("recipient"@)
                &&& opt_view(a.ack_type) == non_empty_attr(*node, "type"@)
                &&& a.error_code == opt_u16_attr(*node, "error"@)
                &&& opt_view(a.participant_hash) == non_empty_attr(*node, "phash"@)
            },
            Err(e) => !inbound_ack_ok(*node) && (e matches CoreError::Protocol(m) && m@
                == inbound_ack_fault(*node)),
        },
{
    ensure_tag(node, "ack")?;
    let id = owned(required_attr(node, "id")?);
    let class = owned(required_attr(node, "class")?);
    validate_non_empty("ack class", class.as_str())?;
    let error_code = optional_u16_attr(node, "error")?;
    let from = optional_jid_attr(node, "from")?;
    let to = optional_jid_attr(node, "to")?;
    let participant = optional_jid_attr(node, "participant")?;
    let recipient = optional_jid_attr(node, "recipient")?;
    Ok(
        InboundAck {
            id,
            class,
            from,
            to,
            participant,
            recipient,
            ack_type: optional_non_empty_attr(node, "type"),
            error_code,
            participant_hash: optional_non_empty_attr(node, "phash"),
        },
    )
}

// ---------------------------------------------------------------------------
// Receipts and notifications.
// ---------------------------------------------------------------------------

/// Every `item` carries a non-empty `id`.
pub open spec fn items_ok(items: Seq<BinaryNode>) -> bool {
    forall|i: int| 0 <= i < items.len() ==> non_empty_attr(#[trigger] items[i], "id"@).is_some()
}

/// The `id`s of the items, in order.
pub open spec fn item_ids(items: Seq<BinaryNode>) -> Seq<Seq<char>> {
    items.map_values(|n: BinaryNode| n.attr("id"@).unwrap())
}

/// The `item` children of a `list` node.
pub open spec fn list_items(list: BinaryNode) -> Seq<BinaryNode> {
    list.children_tagged("item"@)
}

/// Every item of every list carries a non-empty `id`.
pub open spec fn lists_ok(lists: Seq<BinaryNode>) -> bool {
    forall|i: int| 0 <= i < lists.len() ==> items_ok(list_items(#[trigger] lists[i]))
}

/// The item ids of all lists, list after list.
pub open spec fn list_ids(lists: Seq<BinaryNode>) -> Seq<Seq<char>>
    decreases lists.len(),
{
    if lists.len() == 0 {
        Seq::empty()
    } else {
        list_ids(lists.drop_last()) + item_ids(list_items(lists.last()))
    }
}

/// When a receipt stanza is well formed.
pub open spec fn receipt_ok(node: BinaryNode) -> bool {
    &&& node.tag@ == "receipt"@
    &&& non_empty_attr(node, "id"@).is_some()
    &&& jid_attr_ok(node, "from"@)
    &&& opt_jid_attr_ok(node, "recipient"@)
    &&& opt_jid_attr_ok(node, "participant"@)
    &&& opt_u64_attr_ok(node, "t"@)
    &&& lists_ok(node.children_tagged("list"@))
}

/// The ids of the messages a receipt covers: its own id, then the ids of the
/// items of its lists.
pub open spec fn receipt_ids(node: BinaryNode) -> Seq<Seq<char>> {
    seq![node.attr("id"@).unwrap()] + list_ids(node.children_tagged("list"@))
}

pub open spec fn string_views(v: Seq<String>) -> Seq<Seq<char>> {
    v.map_values(|s: String| s@)
}

/// The text of the error for the first item without an id.
pub open spec fn items_fault(items: Seq<BinaryNode>) -> Seq<char>
    decreases items.len(),
{
    if items.len() == 0 {
        Seq::empty()
    } else if non_empty_attr(items[0], "id"@).is_none() {
        required_attr_fault(items[0], "id"@)
    } else {
        items_fault(items.drop_first())
    }
}

/// The text of the error for the first list holding an item without an id.
pub open spec fn lists_fault(lists: Seq<BinaryNode>) -> Seq<char>
    decreases lists.len(),
{
    if lists.len() == 0 {
        Seq::empty()
    } else if !items_ok(list_items(lists[0])) {
        items_fault(list_items(lists[0]))
    } else {
        lists_fault(lists.drop_first())
    }
}

/// Items that all carry an id do not decide which error comes first.
proof fn lemma_items_fault_skip(items: Seq<BinaryNode>, j: int)
    requires
        0 <= j <= items.len(),
        forall|q: int| 0 <= q < j ==> non_empty_attr(#[trigger] items[q], "id"@).is_some(),
    ensures
        items_fault(items) == items_fault(items.skip(j)),
    decreases j,
{
    if j > 0 {
        assert(non_empty_attr(items[0], "id"@).is_some());
        let rest = items.drop_first();
        assert forall|q: int| 0 <= q < j - 1 implies non_empty_attr(#[trigger] rest[q], "id"@).is_some() by {
            assert(rest[q] == items[q + 1]);
        }
        lemma_items_fault_skip(rest, j - 1);
        assert(rest.skip(j - 1) == items.skip(j));
    } else {
        assert(items.skip(0) == items);
    }
}

/// Lists whose items all carry ids do not decide which error comes first.
proof fn lemma_lists_fault_skip(lists: Seq<BinaryNode>, j: int)
    requires
        0 <= j <= lists.len(),
        forall|q: int| 0 <= q < j ==> items_ok(list_items(#[trigger] lists[q])),
    ensures
        lists_fault(lists) == lists_fault(lists.skip(j)),
    decreases j,
{
    if j > 0 {
        assert(items_ok(list_items(lists[0])));
        let rest = lists.drop_first();
        assert forall|q: int| 0 <= q < j - 1 implies items_ok(list_items(#[trigger] rest[q])) by {
            assert(rest[q] == lists[q + 1]);
        }
        lemma_lists_fault_skip(rest, j - 1);
        assert(rest.skip(j - 1) == lists.skip(j));
    } else {
        assert(lists.skip(0) == lists);
    }
}

/// Appends the ids of the items of `list` to `out`.
fn push_item_ids(list: &BinaryNode, out: &mut Vec<String>) -> (r: CoreResult<()>)
    ensures
        match r {
            Ok(_) => items_ok(list_items(*list)) && string_views(final(out)@) == string_views(
                old(out)@,
            ) + item_ids(list_items(*list)),
            Err(e) => !items_ok(list_items(*list)) && (e matches CoreError::Protocol(m) && m@
                == items_fault(list_items(*list))),
        },
{
    let items = list.child_list();
    let positions = list.child_positions("item");
    let ghost tagged = list_items(*list);
    let ghost start = string_views(out@);
    let mut j: usize = 0;
    while j < positions.len()
        invariant
            0 <= j <= positions@.len(),
            positions@.len() == tagged.len(),
            items@ == list.children(),
            tagged == list_items(*list),
            forall|q: int| 0 <= q < positions@.len() ==> #[trigger] positions@[q] < items@.len(),
            forall|q: int|
                0 <= q < positions@.len() ==> items@[#[trigger] positions@[q] as int] == tagged[q],
            forall|q: int| 0 <= q < j ==> non_empty_attr(#[trigger] tagged[q], "id"@).is_some(),
            string_views(out@) == start + item_ids(tagged.take(j as int)),
        decreases positions@.len() - j,
    {
        let item = &items[positions[j]];
        assert(*item == tagged[j as int]);
        let id = match required_attr(item, "id") {
            Ok(v) => v,
            Err(e) => {
                proof {
                    lemma_items_fault_skip(tagged, j as int);
                    assert(tagged.skip(j as int)[0] == tagged[j as int]);
                }
                return Err(e);
            },
        };
        let ghost before = out@;
        out.push(owned(id));
        proof {
            assert(item_ids(tagged.take(j as int + 1)) == item_ids(tagged.take(j as int)).push(
                id@,
            ));
            assert(string_views(out@) == string_views(before).push(id@));
        }
        j = j + 1;
    }
    assert(tagged.take(j as int) == tagged);
    Ok(())
}

/// The text of the error for a malformed receipt: the first rule of
/// `receipt_ok` that it breaks.
pub open spec fn receipt_fault(node: BinaryNode) -> Seq<char> {
    if node.tag@ != "receipt"@ {
        tag_fault(node, "receipt"@)
    } else if non_empty_attr(node, "id"@).is_none() {
        required_attr_fault(node, "id"@)
    } else if !jid_attr_ok(node, "from"@) {
        required_jid_fault(node, "from"@)
    } else if !opt_jid_attr_ok(node, "recipient"@) {
        opt_jid_fault(node, "recipient"@)
    } else if !opt_jid_attr_ok(node, "participant"@) {
        opt_jid_fault(node, "participant"@)
    } else if !opt_u64_attr_ok(node, "t"@) {
        int_attr_fault(node, "t"@)
    } else {
        lists_fault(node.children_tagged("list"@))
    }
}

/// Reads a receipt stanza sent by the server.
pub fn parse_inbound_receipt(node: &BinaryNode) -> (r: CoreResult<InboundReceipt>)
    ensures
        match r {
            Ok(rc) => {
                &&& receipt_ok(*node)
                &&& Some(rc.id@) == node.attr("id"@)
                &&& Some(rc.from@) == node.attr("from"@)
                &&& opt_view(rc.recipient) == node.attr("recipient"@)
                &&& opt_view(rc.participant) == node.attr("participant"@)
                &&& receipt_kind_is(rc.kind, node.attr("type"@))
                &&& rc.timestamp == opt_u64_attr(*node, "t"@)
                &&& string_views(rc.message_ids@) == receipt_ids(*node)
            },
            Err(e) => !receipt_ok(*node) && (e matches CoreError::Protocol(m) && m@ == receipt_fault(
                *node,
            )),
        },
{
    ensure_tag(node, "receipt")?;
    let id = owned(required_attr(node, "id")?);
    let from = required_jid_attr(node, "from")?;
    let recipient = optional_jid_attr(node, "recipient")?;
    let participant = optional_jid_attr(node, "participant")?;
    let kind = InboundReceiptKind::from_wire(node.attr_str("type"));
    let timestamp = optional_u64_attr(node, "t")?;
    let mut message_ids: Vec<String> = Vec::new();
    message_ids.push(clone_string(&id));
    let children = node.child_list();
    let positions = node.child_positions("list");
    let ghost lists = node.children_tagged("list"@);
    let mut j: usize = 0;
    while j < positions.len()
        invariant
            0 <= j <= positions@.len(),
            positions@.len() == lists.len(),
            children@ == node.children(),
            lists == node.children_tagged("list"@),
            forall|q: int| 0 <= q < positions@.len() ==> #[trigger] positions@[q] < children@.len(),
            forall|q: int|
                0 <= q < positions@.len() ==> children@[#[trigger] positions@[q] as int]
                    == lists[q],
            forall|q: int| 0 <= q < j ==> items_ok(list_items(#[trigger] lists[q])),
            string_views(message_ids@) == seq![id@] + list_ids(lists.take(j as int)),
            node.tag@ == "receipt"@,
            non_empty_attr(*node, "id"@).is_some(),
            jid_attr_ok(*node, "from"@),
            opt_jid_attr_ok(*node, "recipient"@),
            opt_jid_attr_ok(*node, "participant"@),
            opt_u64_attr_ok(*node, "t"@),
        decreases positions@.len() - j,
    {
        let list = &children[positions[j]];
        assert(*list == lists[j as int]);
        let ghost before = string_views(message_ids@);
        match push_item_ids(list, &mut message_ids) {
            Ok(_) => {},
            Err(e) => {
                assert(!items_ok(list_items(lists[j as int])));
                proof {
                    lemma_lists_fault_skip(lists, j as int);
                    assert(lists.skip(j as int)[0] == lists[j as int]);
                }
                return Err(e);
            },
        }
        proof {
            assert(lists.take(j as int + 1).drop_last() == lists.take(j as int));
            assert(lists.take(j as int + 1).last() == lists[j as int]);
        }
        j = j + 1;
    }
    assert(lists.take(j as int) == lists);
    Ok(InboundReceipt { id, from, recipient, participant, kind, timestamp, message_ids })
}

/// When a notification stanza is well formed.
pub open spec fn notification_ok(node: BinaryNode) -> bool {
    &&& node.tag@ == "notification"@
    &&& non_empty_attr(node, "id"@).is_some()
    &&& jid_attr_ok(node, "from"@)
    &&& opt_jid_attr_ok(node, "participant"@)
    &&& opt_u64_attr_ok(node, "t"@)
}

/// The text of the error for a malformed notification: the first rule of
/// `notification_ok` that it breaks.
pub open spec fn notification_fault(node: BinaryNode) -> Seq<char> {
    if node.tag@ != "notification"@ {
        tag_fault(node, "notification"@)
    } else if non_empty_attr(node, "id"@).is_none() {
        required_attr_fault(node, "id"@)
    } else if !jid_attr_ok(node, "from"@) {
        required_jid_fault(node, "from"@)
    } else if !opt_jid_attr_ok(node, "participant"@) {
        opt_jid_fault(node, "participant"@)
    } else {
        int_attr_fault(node, "t"@)
    }
}

/// Reads a notification stanza sent by the server.
pub fn parse_inbound_notification(node: &BinaryNode) -> (r: CoreResult<InboundNotification>)
    ensures
        match r {
            Ok(n) => {
                &&& notification_ok(*node)
                &&& Some(n.id@) == node.attr("id"@)
                &&& Some(n.from@) == node.attr("from"@)
                &&& opt_view(n.participant) == node.attr("participant"@)
                &&& opt_view(n.notification_type) == non_empty_attr(*node, "type"@)
                &&& n.timestamp == opt_u64_attr(*node, "t"@)
            },
            Err(e) => !notification_ok(*node) && (e matches CoreError::Protocol(m) && m@
                == notification_fault(*node)),
        },
{
    ensure_tag(node, "notification")?;
    let id = owned(required_attr(node, "id")?);
    let from = required_jid_attr(node, "from")?;
    let participant = optional_jid_attr(node, "participant")?;
    let notification_type = optional_non_empty_attr(node, "type");
    let timestamp = optional_u64_attr(node, "t")?;
    Ok(InboundNotification { id, from, participant, notification_type, timestamp })
}

// ---------------------------------------------------------------------------
// Addressing.
// ---------------------------------------------------------------------------

/// The party whose address decides the inferred addressing mode: the
/// participant, else the sender.
pub open spec fn addressing_subject(n: BinaryNode) -> Option<Seq<char>> {
    match n.attr("participant"@) {
        Some(p) => Some(p),
        None => n.attr("from"@),
    }
}

/// The addressing mode of a stanza: its `addressing_mode` attribute, else LID
/// when the subject is a LID address, else phone number.
pub open spec fn stanza_mode_is(m: AddressingMode, n: BinaryNode) -> bool {
    match n.attr("addressing_mode"@) {
        Some(v) => addressing_mode_is(m, v),
        None => match addressing_subject(n) {
            Some(s) => if jid_valid(s) && (crate::jid::jid_server(s) == JidServer::Lid
                || crate::jid::jid_server(s) == JidServer::HostedLid) {
                m is Lid
            } else {
                m is PhoneNumber
            },
            None => m is PhoneNumber,
        },
    }
}

/// The first of the three attributes that is present and not empty.
pub open spec fn first_non_empty_attr(n: BinaryNode, a: Seq<char>, b: Seq<char>, c: Seq<char>) -> Option<
    Seq<char>,
> {
    if non_empty_attr(n, a).is_some() {
        non_empty_attr(n, a)
    } else if non_empty_attr(n, b).is_some() {
        non_empty_attr(n, b)
    } else {
        non_empty_attr(n, c)
    }
}

/// The addressing context of a stanza: its mode, and the alternative
/// identities (phone numbers under LID addressing, LIDs otherwise).
pub open spec fn addressing_is(ctx: AddressingContext, n: BinaryNode) -> bool {
    &&& stanza_mode_is(ctx.mode, n)
    &&& if ctx.mode is Lid {
        &&& opt_view(ctx.sender_alt) == first_non_empty_attr(
            n,
            "participant_pn"@,
            "sender_pn"@,
            "peer_recipient_pn"@,
        )
        &&& opt_view(ctx.recipient_alt) == non_empty_attr(n, "recipient_pn"@)
    } else {
        &&& opt_view(ctx.sender_alt) == first_non_empty_attr(
            n,
            "participant_lid"@,
            "sender_lid"@,
            "peer_recipient_lid"@,
        )
        &&& opt_view(ctx.recipient_alt) == non_empty_attr(n, "recipient_lid"@)
    }
}

fn first_attr(stanza: &BinaryNode, a: &str, b: &str, c: &str) -> (r: Option<String>)
    ensures
        opt_view(r) == first_non_empty_attr(*stanza, a@, b@, c@),
{
    match optional_non_empty_attr(stanza, a) {
        Some(v) => Some(v),
        None => match optional_non_empty_attr(stanza, b) {
            Some(v) => Some(v),
            None => optional_non_empty_attr(stanza, c),
        },
    }
}

/// The addressing mode named by a wire value.
pub fn addressing_mode_from_wire(value: &str) -> (m: AddressingMode)
    ensures
        addressing_mode_is(m, value@),
{
    if str_eq(value, "lid") {
        AddressingMode::Lid
    } else if str_eq(value, "pn") || value.is_empty() {
        proof {
            reveal_strlit("");
        }
        assert(value@ == "pn"@ || value@ =~= ""@);
        AddressingMode::PhoneNumber
    } else {
        proof {
            reveal_strlit("");
        }
        AddressingMode::Other(owned(value))
    }
}

fn inferred_addressing_mode(sender: Option<&str>) -> (m: AddressingMode)
    ensures
        match opt_str_view(sender) {
            Some(s) => if jid_valid(s) && (crate::jid::jid_server(s) == JidServer::Lid
                || crate::jid::jid_server(s) == JidServer::HostedLid) {
                m is Lid
            } else {
                m is PhoneNumber
            },
            None => m is PhoneNumber,
        },
{
    match sender {
        None => AddressingMode::PhoneNumber,
        Some(s) => match jid_decode(s) {
            Some(j) => if j.server == JidServer::Lid || j.server == JidServer::HostedLid {
                AddressingMode::Lid
            } else {
                AddressingMode::PhoneNumber
            },
            None => AddressingMode::PhoneNumber,
        },
    }
}

/// Reads how the parties of a stanza are addressed.
pub fn extract_addressing_context(stanza: &BinaryNode) -> (ctx: AddressingContext)
    ensures
        addressing_is(ctx, *stanza),
{
    let sender = match stanza.attr_str("participant") {
        Some(p) => Some(p),
        None => stanza.attr_str("from"),
    };
    let mode = match stanza.attr_str("addressing_mode") {
        Some(v) => addressing_mode_from_wire(v),
        None => inferred_addressing_mode(sender),
    };
    let (sender_alt, recipient_alt) = match mode {
        AddressingMode::Lid => (
            first_attr(stanza, "participant_pn", "sender_pn", "peer_recipient_pn"),
            optional_non_empty_attr(stanza, "recipient_pn"),
        ),
        _ => (
            first_attr(stanza, "participant_lid", "sender_lid", "peer_recipient_lid"),
            optional_non_empty_attr(stanza, "recipient_lid"),
        ),
    };
    AddressingContext { mode, sender_alt, recipient_alt }
}

// ---------------------------------------------------------------------------
// Message routing.
// ---------------------------------------------------------------------------

/// Servers of individual users (phone numbers, LIDs, hosted accounts).
pub open spec fn is_user_server(s: JidServer) -> bool {
    s == JidServer::CUs || s == JidServer::SWhatsAppNet || s == JidServer::Lid || s
        == JidServer::Hosted || s == JidServer::HostedLid
}

/// Both texts are JIDs and name the same user.
pub open spec fn same_user_spec(a: Seq<char>, b: Seq<char>) -> bool {
    jid_valid(a) && jid_valid(b) && jid_user(a) == jid_user(b)
}

/// The address belongs to this client (its phone-number JID or its LID).
pub open spec fn is_own(c: Seq<char>, own_jid: Seq<char>, own_lid: Option<Seq<char>>) -> bool {
    same_user_spec(c, own_jid) || (own_lid matches Some(l) && same_user_spec(c, l))
}

/// Where a message belongs: `(kind, chat JID, author JID, sent by this
/// client)`, from its sender, participant and recipient; `None` when the
/// stanza cannot be routed.
pub open spec fn message_route(
    from: Seq<char>,
    participant: Option<Seq<char>>,
    recipient: Option<Seq<char>>,
    own_jid: Seq<char>,
    own_lid: Option<Seq<char>>,
) -> Option<(InboundMessageKind, Seq<char>, Seq<char>, bool)> {
    let server = crate::jid::jid_server(from);
    if is_user_server(server) {
        match recipient {
            Some(r) => if is_own(from, own_jid, own_lid) {
                Some((InboundMessageKind::Chat, r, from, true))
            } else {
                None
            },
            None => Some((InboundMessageKind::Chat, from, from, is_own(from, own_jid, own_lid))),
        }
    } else if server == JidServer::GUs {
        match participant {
            Some(p) => Some((InboundMessageKind::Group, from, p, is_own(p, own_jid, own_lid))),
            None => None,
        }
    } else if server == JidServer::Broadcast {
        match participant {
            Some(p) => {
                let me = is_own(p, own_jid, own_lid);
                let kind = if jid_user(from) == "status"@ {
                    if me {
                        InboundMessageKind::DirectPeerStatus
                    } else {
                        InboundMessageKind::OtherStatus
                    }
                } else if me {
                    InboundMessageKind::PeerBroadcast
                } else {
                    InboundMessageKind::OtherBroadcast
                };
                Some((kind, from, p, me))
            },
            None => None,
        }
    } else if server == JidServer::Newsletter {
        Some((InboundMessageKind::Newsletter, from, from, is_own(from, own_jid, own_lid)))
    } else {
        None
    }
}

/// How a message is routed by its sender's server: a user sender gives a
/// chat (with that sender, or, for this client's own message, with its
/// recipient), a group gives a group message by its participant, a
/// broadcast list gives a status or broadcast message by its participant,
/// and a newsletter gives a newsletter message. Whether a message is this
/// client's own is a fact about its author: the flag a route gives is
/// whether the author is an address of this client. A broadcast or status
/// message is of a peer kind (sent from this client's other device)
/// exactly when that flag is set, and of an other kind exactly when it is
/// not; status messages come from the `status` list, other broadcasts from
/// every other list.
pub proof fn lemma_route_own_kinds(
    from: Seq<char>,
    participant: Option<Seq<char>>,
    recipient: Option<Seq<char>>,
    own_jid: Seq<char>,
    own_lid: Option<Seq<char>>,
)
    ensures
        message_route(from, participant, recipient, own_jid, own_lid) matches Some(route) ==> {
            &&& route.3 == is_own(route.2, own_jid, own_lid)
            &&& (route.0 == InboundMessageKind::PeerBroadcast || route.0 == InboundMessageKind::DirectPeerStatus)
                ==> route.3
            &&& (route.0 == InboundMessageKind::OtherBroadcast || route.0 == InboundMessageKind::OtherStatus)
                ==> !route.3
            &&& crate::jid::jid_server(from) == JidServer::GUs ==> route.0 == InboundMessageKind::Group
                && route.1 == from && participant == Some(route.2)
            &&& crate::jid::jid_server(from) == JidServer::Newsletter ==> route.0 == InboundMessageKind::Newsletter
                && route.1 == from && route.2 == from
            &&& is_user_server(crate::jid::jid_server(from)) ==> route.0 == InboundMessageKind::Chat && route.2
                == from && (recipient matches Some(r) ==> route.1 == r && route.3) && (recipient is None ==> route.1
                == from)
            &&& crate::jid::jid_server(from) == JidServer::Broadcast ==> participant == Some(route.2) && route.1
                == from && ({
                if jid_user(from) == "status"@ {
                    route.0 == InboundMessageKind::DirectPeerStatus || route.0 == InboundMessageKind::OtherStatus
                } else {
                    route.0 == InboundMessageKind::PeerBroadcast || route.0 == InboundMessageKind::OtherBroadcast
                }
            })
        },
{
}

/// When a message stanza can be decoded for this client.
pub open spec fn message_info_ok(stanza: BinaryNode, own_jid: Seq<char>, own_lid: Option<Seq<char>>) -> bool {
    &&& stanza.tag@ == "message"@
    &&& addr_ok(own_jid)
    &&& (own_lid matches Some(l) ==> addr_ok(l))
    &&& non_empty_attr(stanza, "id"@).is_some()
    &&& jid_attr_ok(stanza, "from"@)
    &&& opt_jid_attr_ok(stanza, "participant"@)
    &&& opt_jid_attr_ok(stanza, "recipient"@)
    &&& message_route(
        stanza.attr("from"@).unwrap(),
        stanza.attr("participant"@),
        stanza.attr("recipient"@),
        own_jid,
        own_lid,
    ).is_some()
    &&& opt_u64_attr_ok(stanza, "t"@)
}

/// The text of the error for a message that cannot be routed.
pub open spec fn route_fault(from: Seq<char>) -> Seq<char> {
    let server = crate::jid::jid_server(from);
    if is_user_server(server) {
        "recipient is present on a message not sent by this client"@
    } else if server == JidServer::GUs {
        "group message is missing participant JID"@
    } else if server == JidServer::Broadcast {
        "broadcast message is missing participant JID"@
    } else {
        "unsupported message sender JID server: "@ + jid_server_raw(from)
    }
}

/// The text of the error for a message stanza that cannot be decoded: the
/// first rule of `message_info_ok` that it breaks.
pub open spec fn message_info_fault(stanza: BinaryNode, own_jid: Seq<char>, own_lid: Option<Seq<char>>) -> Seq<
    char,
> {
    if stanza.tag@ != "message"@ {
        tag_fault(stanza, "message"@)
    } else if !addr_ok(own_jid) {
        jid_fault("own JID"@, own_jid)
    } else if own_lid matches Some(l) && !addr_ok(l) {
        jid_fault("own LID"@, own_lid.unwrap())
    } else if non_empty_attr(stanza, "id"@).is_none() {
        required_attr_fault(stanza, "id"@)
    } else if !jid_attr_ok(stanza, "from"@) {
        required_jid_fault(stanza, "from"@)
    } else if !opt_jid_attr_ok(stanza, "participant"@) {
        opt_jid_fault(stanza, "participant"@)
    } else if !opt_jid_attr_ok(stanza, "recipient"@) {
        opt_jid_fault(stanza, "recipient"@)
    } else if message_route(
        stanza.attr("from"@).unwrap(),
        stanza.attr("participant"@),
        stanza.attr("recipient"@),
        own_jid,
        own_lid,
    ).is_none() {
        route_fault(stanza.attr("from"@).unwrap())
    } else {
        int_attr_fault(stanza, "t"@)
    }
}

/// The routing of a decodable message stanza.
pub open spec fn stanza_route(stanza: BinaryNode, own_jid: Seq<char>, own_lid: Option<Seq<char>>) -> (
    InboundMessageKind,
    Seq<char>,
    Seq<char>,
    bool,
) {
    message_route(
        stanza.attr("from"@).unwrap(),
        stanza.attr("participant"@),
        stanza.attr("recipient"@),
        own_jid,
        own_lid,
    ).unwrap()
}

/// Whether `candidate` is an address of this client.
pub fn is_own_jid(candidate: &str, own_jid: &str, own_lid: Option<&str>) -> (r: bool)
    ensures
        r == is_own(candidate@, own_jid@, opt_str_view(own_lid)),
{
    same_user(candidate, own_jid) || match own_lid {
        Some(l) => same_user(candidate, l),
        None => false,
    }
}

fn is_user_server_exec(server: JidServer) -> (r: bool)
    ensures
        r == is_user_server(server),
{
    server == JidServer::CUs || server == JidServer::SWhatsAppNet || server == JidServer::Lid
        || server == JidServer::Hosted || server == JidServer::HostedLid
}

/// Reads the routing metadata of a message stanza addressed to this client.
pub fn decode_inbound_message_info(stanza: &BinaryNode, own_jid: &str, own_lid: Option<&str>) -> (r:
    CoreResult<InboundMessageInfo>)
    ensures
        match r {
            Ok(info) => {
                let route = stanza_route(*stanza, own_jid@, opt_str_view(own_lid));
                &&& message_info_ok(*stanza, own_jid@, opt_str_view(own_lid))
                &&& info.kind == route.0
                &&& info.key@.remote_jid == Some(route.1)
                &&& info.author@ == route.2
                &&& info.key@.from_me == Some(route.3)
                &&& info.key@.id == stanza.attr("id"@)
                &&& info.key@.participant == (if route.0 == InboundMessageKind::Chat {
                    None
                } else {
                    Some(route.2)
                })
                &&& info.sender@ == (if route.0 == InboundMessageKind::Chat {
                    route.2
                } else {
                    route.1
                })
                &&& opt_view(info.category) == non_empty_attr(*stanza, "category"@)
                &&& opt_view(info.push_name) == non_empty_attr(*stanza, "notify"@)
                &&& info.timestamp == opt_u64_attr(*stanza, "t"@)
                &&& addressing_is(info.addressing, *stanza)
            },
            Err(e) => !message_info_ok(*stanza, own_jid@, opt_str_view(own_lid)) && (
            e matches CoreError::Protocol(m) && m@ == message_info_fault(
                *stanza,
                own_jid@,
                opt_str_view(own_lid),
            )),
        },
{
    ensure_tag(stanza, "message")?;
    validate_jid("own JID", own_jid)?;
    if let Some(l) = own_lid {
        validate_jid("own LID", l)?;
    }
    let id = owned(required_attr(stanza, "id")?);
    let from = required_jid_attr(stanza, "from")?;
    let participant = optional_jid_attr(stanza, "participant")?;
    let recipient = optional_jid_attr(stanza, "recipient")?;
    let addressing = extract_addressing_context(stanza);
    let from_decoded = match jid_decode(from.as_str()) {
        Some(j) => j,
        None => {
            return Err(CoreError::Protocol(concat2("invalid message sender JID: ", from.as_str())));
        },
    };
    let ghost own_lid_v = opt_str_view(own_lid);
    assert(from_decoded.server == crate::jid::jid_server(from@));
    let (kind, remote_jid, author, from_me) = if is_user_server_exec(from_decoded.server) {
        match &recipient {
            Some(rec) => {
                if !is_own_jid(from.as_str(), own_jid, own_lid) {
                    return Err(
                        protocol("recipient is present on a message not sent by this client"),
                    );
                }
                (InboundMessageKind::Chat, clone_string(rec), clone_string(&from), true)
            },
            None => {
                let me = is_own_jid(from.as_str(), own_jid, own_lid);
                (InboundMessageKind::Chat, clone_string(&from), clone_string(&from), me)
            },
        }
    } else if from_decoded.server == JidServer::GUs {
        let p = match participant {
            Some(p) => p,
            None => {
                return Err(protocol("group message is missing participant JID"));
            },
        };
        let me = is_own_jid(p.as_str(), own_jid, own_lid);
        (InboundMessageKind::Group, clone_string(&from), p, me)
    } else if from_decoded.server == JidServer::Broadcast {
        let p = match participant {
            Some(p) => p,
            None => {
                return Err(protocol("broadcast message is missing participant JID"));
            },
        };
        let me = is_own_jid(p.as_str(), own_jid, own_lid);
        let kind = if str_eq(from_decoded.user.as_str(), "status") {
            if me {
                InboundMessageKind::DirectPeerStatus
            } else {
                InboundMessageKind::OtherStatus
            }
        } else if me {
            InboundMessageKind::PeerBroadcast
        } else {
            InboundMessageKind::OtherBroadcast
        };
        (kind, clone_string(&from), p, me)
    } else if from_decoded.server == JidServer::Newsletter {
        let me = is_own_jid(from.as_str(), own_jid, own_lid);
        (InboundMessageKind::Newsletter, clone_string(&from), clone_string(&from), me)
    } else {
        return Err(
            CoreError::Protocol(
                concat2("unsupported message sender JID server: ", from_decoded.server_raw.as_str()),
            ),
        );
    };
    let timestamp = optional_u64_attr(stanza, "t")?;
    let is_chat = kind == InboundMessageKind::Chat;
    let sender = if is_chat {
        clone_string(&author)
    } else {
        clone_string(&remote_jid)
    };
    let key_participant = if is_chat {
        None
    } else {
        Some(clone_string(&author))
    };
    Ok(
        InboundMessageInfo {
            key: MessageKey {
                remote_jid: Some(remote_jid),
                from_me: Some(from_me),
                id: Some(id),
                participant: key_participant,
            },
            kind,
            author,
            sender,
            category: optional_non_empty_attr(stanza, "category"),
            push_name: optional_non_empty_attr(stanza, "notify"),
            timestamp,
            addressing,
        },
    )
}

// ---------------------------------------------------------------------------
// Payloads.
// ---------------------------------------------------------------------------

/// `input` followed by `p` copies of the byte `p`.
pub open spec fn padded(input: Seq<u8>, p: u8) -> Seq<u8> {
    input + Seq::new(p as nat, |i: int| p)
}

/// `input` without its random padding: the last byte `p` (1 to 16) says how
/// many trailing bytes, all equal to `p`, to drop. `None` when the padding is
/// malformed.
pub open spec fn unpadded(input: Seq<u8>) -> Option<Seq<u8>> {
    if input.len() == 0 {
        None
    } else {
        let p = input.last() as int;
        if p == 0 || p > 16 || p > input.len() {
            None
        } else if forall|i: int| input.len() - p <= i < input.len() ==> #[trigger] input[i] == p {
            Some(input.take(input.len() - p))
        } else {
            None
        }
    }
}

/// Removing the padding that was added gives back the original bytes.
pub proof fn lemma_unpad_pad(input: Seq<u8>, p: u8)
    requires
        1 <= p <= 16,
    ensures
        unpadded(padded(input, p)) == Some(input),
{
    let s = padded(input, p);
    assert(s.last() == p);
    assert forall|i: int| s.len() - p <= i < s.len() implies #[trigger] s[i] == p as int by {}
    assert(s.take(s.len() - p) == input);
}

/// The text of the error for malformed random padding.
pub open spec fn unpad_fault(input: Seq<u8>) -> Seq<char> {
    if input.len() == 0 {
        "random padding removal requires non-empty bytes"@
    } else if input.last() == 0 || input.last() > 16 || input.last() > input.len() {
        "invalid random padding length "@ + crate::text::decimal_chars(input.last() as nat) + " for "@
            + crate::text::decimal_chars(input.len()) + " bytes"@
    } else {
        "random padding bytes are inconsistent"@
    }
}

/// Removes random padding of 1 to 16 bytes.
pub fn unpad_random_max16(input: &[u8]) -> (r: CoreResult<Vec<u8>>)
    ensures
        match r {
            Ok(out) => unpadded(input@) == Some(out@),
            Err(e) => unpadded(input@).is_none() && (e matches CoreError::Protocol(m) && m@ == unpad_fault(
                input@,
            )),
        },
{
    let n = input.len();
    if n == 0 {
        return Err(protocol("random padding removal requires non-empty bytes"));
    }
    let pad_len = input[n - 1] as usize;
    if pad_len == 0 || pad_len > 16 || pad_len > n {
        let a = crate::text::u64_to_string(pad_len as u64);
        let b = crate::text::u64_to_string(n as u64);
        let m1 = concat3("invalid random padding length ", a.as_str(), " for ");
        let m2 = concat3(m1.as_str(), b.as_str(), " bytes");
        return Err(CoreError::Protocol(m2));
    }
    let mut i = n - pad_len;
    while i < n
        invariant
            n == input@.len(),
            1 <= pad_len <= 16,
            pad_len <= n,
            pad_len == input@.last(),
            n - pad_len <= i <= n,
            forall|j: int| n - pad_len <= j < i ==> #[trigger] input@[j] == pad_len,
        decreases n - i,
    {
        if input[i] as usize != pad_len {
            return Err(protocol("random padding bytes are inconsistent"));
        }
        i = i + 1;
    }
    let mut out: Vec<u8> = Vec::new();
    let mut k: usize = 0;
    while k < n - pad_len
        invariant
            n == input@.len(),
            pad_len <= n,
            0 <= k <= n - pad_len,
            out@ == input@.take(k as int),
        decreases n - pad_len - k,
    {
        out.push(input[k]);
        assert(input@.take(k as int + 1) == input@.take(k as int).push(input@[k as int]));
        k = k + 1;
    }
    Ok(out)
}

/// A uniformly random byte (`rand::random`).
#[verifier::external_body]
fn random_byte() -> u8 {
    rand::random::<u8>()
}

/// Appends random padding of 1 to 16 bytes, each equal to the padding length.
pub fn pad_random_max16(input: &[u8]) -> (out: Vec<u8>)
    requires
        input@.len() + 16 <= usize::MAX,
    ensures
        1 <= out@.last() <= 16,
        out@ == padded(input@, out@.last()),
        unpadded(out@) == Some(input@),
{
    pad_with_random_byte(input, random_byte())
}

/// Appends the padding that the random byte `r` chooses: `r % 16 + 1`
/// bytes, each equal to that length.
pub fn pad_with_random_byte(input: &[u8], r: u8) -> (out: Vec<u8>)
    requires
        input@.len() + 16 <= usize::MAX,
    ensures
        out@.last() == r % 16 + 1,
        out@ == padded(input@, (r % 16 + 1) as u8),
        unpadded(out@) == Some(input@),
{
    let pad_len: u8 = r % 16 + 1;
    let mut out: Vec<u8> = Vec::new();
    let mut k: usize = 0;
    while k < input.len()
        invariant
            0 <= k <= input@.len(),
            out@ == input@.take(k as int),
        decreases input@.len() - k,
    {
        out.push(input[k]);
        assert(input@.take(k as int + 1) == input@.take(k as int).push(input@[k as int]));
        k = k + 1;
    }
    assert(input@.take(input@.len() as int) == input@);
    let mut j: u8 = 0;
    while j < pad_len
        invariant
            1 <= pad_len <= 16,
            0 <= j <= pad_len,
            out@ == input@ + Seq::new(j as nat, |i: int| pad_len),
        decreases pad_len - j,
    {
        out.push(pad_len);
        assert(input@ + Seq::new((j + 1) as nat, |i: int| pad_len) == (input@ + Seq::new(
            j as nat,
            |i: int| pad_len,
        )).push(pad_len));
        j = j + 1;
    }
    proof {
        assert(out@.last() == pad_len);
        lemma_unpad_pad(input@, pad_len);
    }
    out
}

/// The payload children of a message: `plaintext` and `enc` nodes, in order.
pub open spec fn payload_nodes(nodes: Seq<BinaryNode>) -> Seq<BinaryNode>
    decreases nodes.len(),
{
    if nodes.len() == 0 {
        Seq::empty()
    } else if nodes.last().tag@ == "plaintext"@ || nodes.last().tag@ == "enc"@ {
        payload_nodes(nodes.drop_last()).push(nodes.last())
    } else {
        payload_nodes(nodes.drop_last())
    }
}

/// The nodes that a sequence of references points to.
pub open spec fn deref_nodes(s: Seq<&BinaryNode>) -> Seq<BinaryNode> {
    s.map_values(|n: &BinaryNode| *n)
}

/// The children of a message stanza that carry a payload, in order.
pub fn decryptable_children(stanza: &BinaryNode) -> (r: Vec<&BinaryNode>)
    ensures
        deref_nodes(r@) == payload_nodes(stanza.children()),
{
    let children = stanza.child_list();
    let mut out: Vec<&BinaryNode> = Vec::new();
    let mut i: usize = 0;
    while i < children.len()
        invariant
            0 <= i <= children@.len(),
            children@ == stanza.children(),
            deref_nodes(out@) == payload_nodes(children@.take(i as int)),
        decreases children@.len() - i,
    {
        let c = &children[i];
        assert(children@.take(i as int + 1).drop_last() == children@.take(i as int));
        assert(children@.take(i as int + 1).last() == children@[i as int]);
        if str_eq(c.tag.as_str(), "plaintext") || str_eq(c.tag.as_str(), "enc") {
            let ghost before = out@;
            out.push(c);
            assert(deref_nodes(out@) == deref_nodes(before).push(*c));
        }
        i = i + 1;
    }
    assert(children@.take(children@.len() as int) == children@);
    out
}

/// The routing metadata of a message stanza and its payload children;
/// refused when the stanza carries no payload.
pub fn plan_inbound_message<'a>(stanza: &'a BinaryNode, own_jid: &str, own_lid: Option<&str>) -> (r:
    CoreResult<(InboundMessageInfo, Vec<&'a BinaryNode>)>)
    ensures
        match r {
            Ok((info, nodes)) => {
                &&& message_info_ok(*stanza, own_jid@, opt_str_view(own_lid))
                &&& deref_nodes(nodes@) == payload_nodes(stanza.children())
                &&& nodes@.len() > 0
            },
            Err(e) => (!message_info_ok(*stanza, own_jid@, opt_str_view(own_lid)) || payload_nodes(
                stanza.children(),
            ).len() == 0) && (e matches CoreError::Protocol(m) && m@ == if !message_info_ok(
                *stanza,
                own_jid@,
                opt_str_view(own_lid),
            ) {
                message_info_fault(*stanza, own_jid@, opt_str_view(own_lid))
            } else {
                "message stanza contains no decryptable payload"@
            }),
        },
{
    let info = decode_inbound_message_info(stanza, own_jid, own_lid)?;
    let nodes = decryptable_children(stanza);
    if nodes.len() == 0 {
        return Err(protocol("message stanza contains no decryptable payload"));
    }
    Ok((info, nodes))
}

/// A payload ready for the session layer: plaintext bytes, or a ciphertext to
/// decrypt.
#[derive(Clone, Debug)]
pub enum PreparedInboundPayload {
    Plaintext(Vec<u8>),
    Encrypted(InboundEncryptedPayload),
}

/// When a payload node can be handed on: a `plaintext` node with bytes, or an
/// `enc` node with a known ciphertext type and bytes.
pub open spec fn payload_node_ok(node: BinaryNode) -> bool {
    &&& node.bytes_content().is_some()
    &&& (node.tag@ == "plaintext"@ || (node.tag@ == "enc"@ && match non_empty_attr(node, "type"@) {
        Some(t) => t == "msg"@ || t == "pkmsg"@ || t == "skmsg"@,
        None => false,
    }))
}

/// The text of the error for a payload node without bytes.
pub open spec fn bytes_fault(node: BinaryNode) -> Seq<char> {
    if node.content.is_some() {
        node.tag@ + " node must contain bytes"@
    } else {
        node.tag@ + " node is missing bytes"@
    }
}

/// The text of the error for a payload node that cannot be handed on: the
/// first rule of `payload_node_ok` that it breaks.
pub open spec fn payload_fault(node: BinaryNode) -> Seq<char> {
    if node.tag@ == "plaintext"@ {
        bytes_fault(node)
    } else if node.tag@ == "enc"@ {
        if non_empty_attr(node, "type"@).is_none() {
            required_attr_fault(node, "type"@)
        } else if node.attr("type"@).unwrap() != "msg"@ && node.attr("type"@).unwrap() != "pkmsg"@
            && node.attr("type"@).unwrap() != "skmsg"@ {
            "unsupported inbound ciphertext type: "@ + node.attr("type"@).unwrap()
        } else {
            bytes_fault(node)
        }
    } else {
        "unsupported inbound payload node: "@ + node.tag@
    }
}

fn node_bytes(node: &BinaryNode) -> (r: CoreResult<Vec<u8>>)
    ensures
        match r {
            Ok(b) => node.bytes_content() == Some(b@),
            Err(e) => node.bytes_content().is_none() && (e matches CoreError::Protocol(m) && m@
                == bytes_fault(*node)),
        },
{
    match &node.content {
        Some(crate::node::NodeContent::Bytes(b)) => Ok(b.clone()),
        Some(_) => Err(CoreError::Protocol(concat2(node.tag.as_str(), " node must contain bytes"))),
        None => Err(CoreError::Protocol(concat2(node.tag.as_str(), " node is missing bytes"))),
    }
}

/// Turns a payload node of a message into plaintext bytes or a decryption
/// request addressed from the message's author in the message's chat.
pub fn prepare_inbound_payload(info: &InboundMessageInfo, node: &BinaryNode) -> (r: CoreResult<
    PreparedInboundPayload,
>)
    ensures
        match r {
            Ok(PreparedInboundPayload::Plaintext(b)) => node.tag@ == "plaintext"@ && Some(b@)
                == node.bytes_content(),
            Ok(PreparedInboundPayload::Encrypted(p)) => {
                &&& payload_node_ok(*node)
                &&& node.tag@ == "enc"@
                &&& Some(p.ciphertext_type.wire()) == node.attr("type"@)
                &&& Some(p.ciphertext@) == node.bytes_content()
                &&& p.sender_jid@ == info.author@
                &&& p.chat_jid@ == info.sender@
            },
            Err(e) => !payload_node_ok(*node) && (e matches CoreError::Protocol(m) && m@
                == payload_fault(*node)),
        },
{
    if str_eq(node.tag.as_str(), "plaintext") {
        let b = node_bytes(node)?;
        proof {
            reveal_strlit("plaintext");
            reveal_strlit("enc");
        }
        Ok(PreparedInboundPayload::Plaintext(b))
    } else if str_eq(node.tag.as_str(), "enc") {
        let t = required_attr(node, "type")?;
        let ciphertext_type = InboundCiphertextType::from_wire(t)?;
        let ciphertext = node_bytes(node)?;
        Ok(
            PreparedInboundPayload::Encrypted(
                InboundEncryptedPayload {
                    sender_jid: clone_string(&info.author),
                    chat_jid: clone_string(&info.sender),
                    ciphertext_type,
                    ciphertext,
                },
            ),
        )
    } else {
        Err(CoreError::Protocol(concat2("unsupported inbound payload node: ", node.tag.as_str())))
    }
}

/// The message bytes of a ciphertext the session layer decrypted: the
/// decrypted bytes without their random padding, marked with the kind of
/// ciphertext they came from.
pub fn decrypted_message_bytes(ciphertext_type: InboundCiphertextType, decrypted: &[u8]) -> (r: CoreResult<
    (InboundPayloadKind, Vec<u8>),
>)
    ensures
        match r {
            Ok((kind, bytes)) => kind == InboundPayloadKind::Encrypted(ciphertext_type) && unpadded(
                decrypted@,
            ) == Some(bytes@),
            Err(e) => unpadded(decrypted@).is_none() && (e matches CoreError::Protocol(m) && m@ == unpad_fault(
                decrypted@,
            )),
        },
{
    let bytes = unpad_random_max16(decrypted)?;
    Ok((InboundPayloadKind::Encrypted(ciphertext_type), bytes))
}

} // verus!
