use crate::error::{CoreError, CoreResult};
use crate::jid::{jid_decode, jid_normalized_user, jid_server, jid_valid, normalized_user_text, JidServer};
use crate::key::{chars_lt, lemma_chars_order, MessageKey};
use crate::node::{BinaryNode, NodeContent};
use crate::text::{concat2, concat3, opt_view, owned, str_eq};
use vstd::prelude::*;
use vstd::utf8::encode_utf8;

verus! {

/// Where an uploaded media blob lives and the keys and digests that decrypt
/// and check it.
#[derive(Clone, Debug, PartialEq, Eq)]
pub struct UploadedMedia {
    pub url: Option<String>,
    pub direct_path: Option<String>,
    pub media_key: Vec<u8>,
    pub file_sha256: Vec<u8>,
    pub file_enc_sha256: Vec<u8>,
    pub file_length: u64,
    pub media_key_timestamp: Option<i64>,
}

/// The plain-value view of uploaded media.
pub struct UploadedMediaView {
    pub url: Option<Seq<char>>,
    pub direct_path: Option<Seq<char>>,
    pub media_key: Seq<u8>,
    pub file_sha256: Seq<u8>,
    pub file_enc_sha256: Seq<u8>,
    pub file_length: u64,
    pub media_key_timestamp: Option<i64>,
}

impl View for UploadedMedia {
    type V = UploadedMediaView;

    open spec fn view(&self) -> UploadedMediaView {
        UploadedMediaView {
            url: opt_view(self.url),
            direct_path: opt_view(self.direct_path),
            media_key: self.media_key@,
            file_sha256: self.file_sha256@,
            file_enc_sha256: self.file_enc_sha256@,
            file_length: self.file_length,
            media_key_timestamp: self.media_key_timestamp,
        }
    }
}

impl UploadedMedia {
    /// Media with the given key and digests and no location yet.
    pub fn new(media_key: Vec<u8>, file_sha256: Vec<u8>, file_enc_sha256: Vec<u8>, file_length: u64) -> (m: Self)
        ensures
            m@.url.is_none(),
            m@.direct_path.is_none(),
            m@.media_key == media_key@,
            m@.file_sha256 == file_sha256@,
            m@.file_enc_sha256 == file_enc_sha256@,
            m@.file_length == file_length,
            m@.media_key_timestamp.is_none(),
    {
        UploadedMedia {
            url: None,
            direct_path: None,
            media_key,
            file_sha256,
            file_enc_sha256,
            file_length,
            media_key_timestamp: None,
        }
    }

    /// This media with its download URL set.
    pub fn with_url(self, url: &str) -> (m: Self)
        ensures
            m@ == (UploadedMediaView { url: Some(url@), ..self@ }),
    {
        UploadedMedia { url: Some(crate::text::owned(url)), ..self }
    }

    /// This media with its direct path set.
    pub fn with_direct_path(self, direct_path: &str) -> (m: Self)
        ensures
            m@ == (UploadedMediaView { direct_path: Some(direct_path@), ..self@ }),
    {
        UploadedMedia { direct_path: Some(crate::text::owned(direct_path)), ..self }
    }

    /// This media with its media key timestamp set.
    pub fn with_media_key_timestamp(self, timestamp: i64) -> (m: Self)
        ensures
            m@ == (UploadedMediaView { media_key_timestamp: Some(timestamp), ..self@ }),
    {
        UploadedMedia { media_key_timestamp: Some(timestamp), ..self }
    }

    /// A copy of this media descriptor.
    pub fn copy(&self) -> (m: Self)
        ensures
            m@ == self@,
    {
        UploadedMedia {
            url: crate::text::clone_opt_string(&self.url),
            direct_path: crate::text::clone_opt_string(&self.direct_path),
            media_key: self.media_key.clone(),
            file_sha256: self.file_sha256.clone(),
            file_enc_sha256: self.file_enc_sha256.clone(),
            file_length: self.file_length,
            media_key_timestamp: self.media_key_timestamp,
        }
    }
}


/// An uploaded high-quality thumbnail of a link preview.
#[derive(Clone, Debug, PartialEq, Eq)]
pub struct LinkPreviewThumbnail {
    pub direct_path: String,
    pub media_key: Vec<u8>,
    pub media_key_timestamp: Option<i64>,
    pub width: Option<u32>,
    pub height: Option<u32>,
    pub sha256: Vec<u8>,
    pub enc_sha256: Vec<u8>,
}

impl LinkPreviewThumbnail {
    /// A thumbnail at `direct_path` with the given key and digests, no
    /// timestamp and no dimensions.
    pub fn new(direct_path: &str, media_key: Vec<u8>, sha256: Vec<u8>, enc_sha256: Vec<u8>) -> (t: Self)
        ensures
            t.direct_path@ == direct_path@,
            t.media_key@ == media_key@,
            t.sha256@ == sha256@,
            t.enc_sha256@ == enc_sha256@,
            t.media_key_timestamp.is_none(),
            t.width.is_none(),
            t.height.is_none(),
    {
        LinkPreviewThumbnail {
            direct_path: owned(direct_path),
            media_key,
            media_key_timestamp: None,
            width: None,
            height: None,
            sha256,
            enc_sha256,
        }
    }

    /// This thumbnail with its media key timestamp set.
    pub fn with_media_key_timestamp(self, timestamp: i64) -> (t: Self)
        ensures
            t == (LinkPreviewThumbnail { media_key_timestamp: Some(timestamp), ..self }),
    {
        LinkPreviewThumbnail { media_key_timestamp: Some(timestamp), ..self }
    }

    /// This thumbnail with its width and height set.
    pub fn with_dimensions(self, width: u32, height: u32) -> (t: Self)
        ensures
            t == (LinkPreviewThumbnail { width: Some(width), height: Some(height), ..self }),
    {
        LinkPreviewThumbnail { width: Some(width), height: Some(height), ..self }
    }
}

/// The preview of a link in a text message.
#[derive(Clone, Debug, PartialEq, Eq)]
pub struct LinkPreviewContent {
    pub matched_text: String,
    pub title: String,
    pub description: Option<String>,
    pub jpeg_thumbnail: Option<Vec<u8>>,
    pub high_quality_thumbnail: Option<LinkPreviewThumbnail>,
}

impl LinkPreviewContent {
    /// A preview of `matched_text` with the given title and nothing else.
    pub fn new(matched_text: &str, title: &str) -> (c: Self)
        ensures
            c.matched_text@ == matched_text@,
            c.title@ == title@,
            c.description.is_none(),
            c.jpeg_thumbnail.is_none(),
            c.high_quality_thumbnail.is_none(),
    {
        LinkPreviewContent {
            matched_text: owned(matched_text),
            title: owned(title),
            description: None,
            jpeg_thumbnail: None,
            high_quality_thumbnail: None,
        }
    }

    /// This preview with a description.
    pub fn with_description(self, description: &str) -> (c: Self)
        ensures
            c.matched_text == self.matched_text,
            c.title == self.title,
            opt_view(c.description) == Some(description@),
            c.jpeg_thumbnail == self.jpeg_thumbnail,
            c.high_quality_thumbnail == self.high_quality_thumbnail,
    {
        LinkPreviewContent { description: Some(owned(description)), ..self }
    }

    /// This preview with an inline JPEG thumbnail.
    pub fn with_jpeg_thumbnail(self, thumbnail: Vec<u8>) -> (c: Self)
        ensures
            c == (LinkPreviewContent { jpeg_thumbnail: Some(thumbnail), ..self }),
    {
        LinkPreviewContent { jpeg_thumbnail: Some(thumbnail), ..self }
    }

    /// This preview with an uploaded high-quality thumbnail.
    pub fn with_high_quality_thumbnail(self, thumbnail: LinkPreviewThumbnail) -> (c: Self)
        ensures
            c == (LinkPreviewContent { high_quality_thumbnail: Some(thumbnail), ..self }),
    {
        LinkPreviewContent { high_quality_thumbnail: Some(thumbnail), ..self }
    }
}

/// An uploaded thumbnail of a video or document.
#[derive(Clone, Debug, PartialEq, Eq)]
pub struct RemoteMediaThumbnail {
    pub direct_path: String,
    pub sha256: Vec<u8>,
    pub enc_sha256: Vec<u8>,
    pub width: Option<u32>,
    pub height: Option<u32>,
}

impl RemoteMediaThumbnail {
    /// A thumbnail at `direct_path` with the given digests and no
    /// dimensions.
    pub fn new(direct_path: &str, sha256: Vec<u8>, enc_sha256: Vec<u8>) -> (t: Self)
        ensures
            t.direct_path@ == direct_path@,
            t.sha256@ == sha256@,
            t.enc_sha256@ == enc_sha256@,
            t.width.is_none(),
            t.height.is_none(),
    {
        RemoteMediaThumbnail { direct_path: owned(direct_path), sha256, enc_sha256, width: None, height: None }
    }

    /// This thumbnail with its width and height set.
    pub fn with_dimensions(self, width: u32, height: u32) -> (t: Self)
        ensures
            t == (RemoteMediaThumbnail { width: Some(width), height: Some(height), ..self }),
    {
        RemoteMediaThumbnail { width: Some(width), height: Some(height), ..self }
    }
}


/// A vote in a poll, before it is encrypted: the poll message, the hashes
/// of the chosen options, and what the encryption needs.
#[derive(Clone, Debug, PartialEq, Eq)]
pub struct PollVoteContent {
    pub poll_creation_message_key: MessageKey,
    pub selected_option_hashes: Vec<Vec<u8>>,
    pub poll_message_secret: Vec<u8>,
    pub poll_creator_jid: String,
    pub voter_jid: String,
    pub sender_timestamp_ms: Option<i64>,
    pub include_metadata: bool,
}

/// The byte sequences a list of byte vectors holds.
pub open spec fn byte_views(v: Seq<Vec<u8>>) -> Seq<Seq<u8>> {
    v.map_values(|b: Vec<u8>| b@)
}

/// The SHA-256 digest of each option name's UTF-8 bytes.
pub open spec fn option_hashes(names: Seq<&str>) -> Seq<Seq<u8>> {
    names.map_values(|n: &str| crate::media::sha256(encode_utf8(n@)))
}

impl PollVoteContent {
    /// A vote for the options with the given hashes, with metadata and no
    /// timestamp.
    pub fn new(
        poll_creation_message_key: MessageKey,
        selected_option_hashes: Vec<Vec<u8>>,
        poll_message_secret: Vec<u8>,
        poll_creator_jid: &str,
        voter_jid: &str,
    ) -> (c: Self)
        ensures
            c.poll_creation_message_key == poll_creation_message_key,
            c.selected_option_hashes == selected_option_hashes,
            c.poll_message_secret == poll_message_secret,
            c.poll_creator_jid@ == poll_creator_jid@,
            c.voter_jid@ == voter_jid@,
            c.sender_timestamp_ms.is_none(),
            c.include_metadata,
    {
        PollVoteContent {
            poll_creation_message_key,
            selected_option_hashes,
            poll_message_secret,
            poll_creator_jid: owned(poll_creator_jid),
            voter_jid: owned(voter_jid),
            sender_timestamp_ms: None,
            include_metadata: true,
        }
    }

    /// A vote for the options with the given names: each name must not be
    /// empty, and is hashed with SHA-256.
    pub fn from_option_names(
        poll_creation_message_key: MessageKey,
        selected_option_names: &[&str],
        poll_message_secret: Vec<u8>,
        poll_creator_jid: &str,
        voter_jid: &str,
    ) -> (r: CoreResult<Self>)
        ensures
            match r {
                Ok(c) => {
                    &&& forall|i: int| 0 <= i < selected_option_names@.len() ==> (#[trigger] selected_option_names@[i])@.len() > 0
                    &&& byte_views(c.selected_option_hashes@) == option_hashes(selected_option_names@)
                    &&& c.poll_creation_message_key == poll_creation_message_key
                    &&& c.poll_message_secret == poll_message_secret
                    &&& c.poll_creator_jid@ == poll_creator_jid@
                    &&& c.voter_jid@ == voter_jid@
                    &&& c.sender_timestamp_ms.is_none()
                    &&& c.include_metadata
                },
                Err(e) => (exists|i: int| 0 <= i < selected_option_names@.len() && (#[trigger] selected_option_names@[i])@.len() == 0)
                    && (e matches CoreError::Payload(m) && m@ == "selected poll option"@ + " must not be empty"@),
            },
    {
        let mut hashes: Vec<Vec<u8>> = Vec::new();
        let mut i: usize = 0;
        while i < selected_option_names.len()
            invariant
                0 <= i <= selected_option_names@.len(),
                forall|k: int| 0 <= k < i ==> (#[trigger] selected_option_names@[k])@.len() > 0,
                byte_views(hashes@) == option_hashes(selected_option_names@.take(i as int)),
            decreases selected_option_names@.len() - i,
        {
            let name = selected_option_names[i];
            if name.is_empty() {
                assert(selected_option_names@[i as int]@.len() == 0);
                return Err(CoreError::Payload(concat2("selected poll option", " must not be empty")));
            }
            let digest = crate::media::sha256_digest(name.as_bytes());
            let ghost before = byte_views(hashes@);
            hashes.push(digest);
            assert(selected_option_names@.take(i + 1) == selected_option_names@.take(i as int).push(name));
            assert(byte_views(hashes@) =~= before.push(digest@));
            assert(option_hashes(selected_option_names@.take(i + 1)) =~= option_hashes(
                selected_option_names@.take(i as int),
            ).push(crate::media::sha256(encode_utf8(name@))));
            i = i + 1;
        }
        assert(selected_option_names@.take(i as int) == selected_option_names@);
        Ok(PollVoteContent::new(poll_creation_message_key, hashes, poll_message_secret, poll_creator_jid, voter_jid))
    }

    /// This vote with the time it was cast.
    pub fn with_sender_timestamp_ms(self, sender_timestamp_ms: i64) -> (c: Self)
        ensures
            c == (PollVoteContent { sender_timestamp_ms: Some(sender_timestamp_ms), ..self }),
    {
        PollVoteContent { sender_timestamp_ms: Some(sender_timestamp_ms), ..self }
    }

    /// This vote without metadata.
    pub fn without_metadata(self) -> (c: Self)
        ensures
            c == (PollVoteContent { include_metadata: false, ..self }),
    {
        PollVoteContent { include_metadata: false, ..self }
    }
}

pub const STATUS_BROADCAST_JID: &'static str = "status@broadcast";

/// Prefix of the message ids this client generates.
pub const MESSAGE_ID_PREFIX: &'static str = "3EB0";

/// Fonts of extended text messages.
#[derive(Clone, Copy, Debug, PartialEq, Eq, Structural, Hash)]
pub enum TextFont {
    System,
    SystemText,
    Script,
    SystemBold,
    MorningBreeze,
    Calistoga,
    Exo2ExtraBold,
    CourierPrimeBold,
}

/// Answers to an event invitation.
#[derive(Clone, Copy, Debug, PartialEq, Eq, Structural)]
pub enum EventResponseKind {
    Unknown,
    Going,
    NotGoing,
    Maybe,
}

/// Pinning or unpinning a message.
#[derive(Clone, Copy, Debug, PartialEq, Eq, Structural)]
pub enum PinAction {
    Pin,
    Unpin,
}

/// Kinds of group invitations.
#[derive(Clone, Copy, Debug, PartialEq, Eq, Structural)]
pub enum GroupInviteKind {
    Default,
    Parent,
}

/// What made a chat limit sharing.
#[derive(Clone, Copy, Debug, PartialEq, Eq, Structural, Hash)]
pub enum LimitSharingTrigger {
    Unknown,
    ChatSetting,
    BizSupportsFbHosting,
    UnknownGroup,
}

/// A change of a chat's disappearing-messages timer.
#[derive(Clone, Debug, PartialEq)]
pub struct DisappearingModeContent {
    pub ephemeral_expiration: u32,
    pub ephemeral_setting_timestamp: Option<i64>,
    pub initiator_device_jid: Option<String>,
}

impl DisappearingModeContent {
    /// A timer of `ephemeral_expiration` seconds, with no timestamp or
    /// initiator.
    pub fn new(ephemeral_expiration: u32) -> (c: Self)
        ensures
            c.ephemeral_expiration == ephemeral_expiration,
            c.ephemeral_setting_timestamp.is_none(),
            c.initiator_device_jid.is_none(),
    {
        DisappearingModeContent {
            ephemeral_expiration,
            ephemeral_setting_timestamp: None,
            initiator_device_jid: None,
        }
    }
}

/// A change of a chat's limit-sharing setting.
#[derive(Clone, Debug, PartialEq)]
pub struct LimitSharingContent {
    pub sharing_limited: bool,
    pub trigger: LimitSharingTrigger,
    pub setting_timestamp_ms: Option<i64>,
    pub initiated_by_me: bool,
}

impl LimitSharingContent {
    /// A change made here from the chat settings.
    pub fn new(sharing_limited: bool) -> (c: Self)
        ensures
            c.sharing_limited == sharing_limited,
            c.trigger == LimitSharingTrigger::ChatSetting,
            c.setting_timestamp_ms.is_none(),
            c.initiated_by_me,
    {
        LimitSharingContent {
            sharing_limited,
            trigger: LimitSharingTrigger::ChatSetting,
            setting_timestamp_ms: None,
            initiated_by_me: true,
        }
    }

    /// This change with another trigger.
    pub fn with_trigger(self, trigger: LimitSharingTrigger) -> (c: Self)
        ensures
            c == (LimitSharingContent { trigger, ..self }),
    {
        LimitSharingContent { trigger, ..self }
    }

    /// This change with the time the setting changed.
    pub fn with_setting_timestamp_ms(self, timestamp_ms: i64) -> (c: Self)
        ensures
            c == (LimitSharingContent { setting_timestamp_ms: Some(timestamp_ms), ..self }),
    {
        LimitSharingContent { setting_timestamp_ms: Some(timestamp_ms), ..self }
    }

    /// This change, made here or not.
    pub fn initiated_by_me(self, value: bool) -> (c: Self)
        ensures
            c == (LimitSharingContent { initiated_by_me: value, ..self }),
    {
        LimitSharingContent { initiated_by_me: value, ..self }
    }
}

/// The Signal ciphertext kind of an outgoing payload.
#[derive(Clone, Copy, Debug, PartialEq, Eq, Structural)]
pub enum MessageCiphertextType {
    Message,
    PreKey,
    SenderKey,
}

impl MessageCiphertextType {
    pub open spec fn stanza_type(self) -> Seq<char> {
        match self {
            MessageCiphertextType::Message => "msg"@,
            MessageCiphertextType::PreKey => "pkmsg"@,
            MessageCiphertextType::SenderKey => "skmsg"@,
        }
    }

    /// The `type` of the `enc` node carrying this ciphertext kind.
    pub fn as_stanza_type(self) -> (s: &'static str)
        ensures
            s@ == self.stanza_type(),
    {
        match self {
            MessageCiphertextType::Message => "msg",
            MessageCiphertextType::PreKey => "pkmsg",
            MessageCiphertextType::SenderKey => "skmsg",
        }
    }
}

/// An encrypted payload for one device.
#[derive(Clone, Debug, PartialEq, Eq)]
pub struct MessageEncryption {
    pub ciphertext_type: MessageCiphertextType,
    pub ciphertext: Vec<u8>,
}

impl MessageEncryption {
    pub fn new(ciphertext_type: MessageCiphertextType, ciphertext: Vec<u8>) -> (e: Self)
        ensures
            e.ciphertext_type == ciphertext_type,
            e.ciphertext == ciphertext,
    {
        MessageEncryption { ciphertext_type, ciphertext }
    }
}

/// A device a message is relayed to.
#[derive(Clone, Debug, PartialEq, Eq)]
pub struct MessageRelayRecipient {
    pub jid: String,
    pub is_own_device: bool,
}

impl MessageRelayRecipient {
    /// Another user's device.
    pub fn new(jid: &str) -> (r: Self)
        ensures
            r.jid@ == jid@,
            !r.is_own_device,
    {
        MessageRelayRecipient { jid: owned(jid), is_own_device: false }
    }

    /// One of this account's own devices.
    pub fn own_device(jid: &str) -> (r: Self)
        ensures
            r.jid@ == jid@,
            r.is_own_device,
    {
        MessageRelayRecipient { jid: owned(jid), is_own_device: true }
    }
}

/// Kinds of message receipts this client sends.
#[derive(Clone, Copy, Debug, PartialEq, Eq, Structural)]
pub enum MessageReceiptType {
    Delivery,
    Read,
    ReadSelf,
    HistorySync,
    PeerMessage,
    Sender,
    Inactive,
    Played,
}

impl MessageReceiptType {
    pub open spec fn wire(self) -> Option<Seq<char>> {
        match self {
            MessageReceiptType::Delivery => None,
            MessageReceiptType::Read => Some("read"@),
            MessageReceiptType::ReadSelf => Some("read-self"@),
            MessageReceiptType::HistorySync => Some("hist_sync"@),
            MessageReceiptType::PeerMessage => Some("peer_msg"@),
            MessageReceiptType::Sender => Some("sender"@),
            MessageReceiptType::Inactive => Some("inactive"@),
            MessageReceiptType::Played => Some("played"@),
        }
    }

    /// The `type` attribute of a receipt of this kind (none for delivery).
    pub fn as_wire_type(self) -> (r: Option<&'static str>)
        ensures
            match r {
                Some(s) => self.wire() == Some(s@),
                None => self.wire().is_none(),
            },
    {
        match self {
            MessageReceiptType::Delivery => None,
            MessageReceiptType::Read => Some("read"),
            MessageReceiptType::ReadSelf => Some("read-self"),
            MessageReceiptType::HistorySync => Some("hist_sync"),
            MessageReceiptType::PeerMessage => Some("peer_msg"),
            MessageReceiptType::Sender => Some("sender"),
            MessageReceiptType::Inactive => Some("inactive"),
            MessageReceiptType::Played => Some("played"),
        }
    }

    pub open spec fn needs_timestamp(self) -> bool {
        self == MessageReceiptType::Read || self == MessageReceiptType::ReadSelf
    }

    /// Whether receipts of this kind carry a timestamp.
    pub fn requires_timestamp(self) -> (b: bool)
        ensures
            b == self.needs_timestamp(),
    {
        self == MessageReceiptType::Read || self == MessageReceiptType::ReadSelf
    }
}

/// Messages of one chat (and one author, in groups) to acknowledge together.
#[derive(Clone, Debug, PartialEq, Eq)]
pub struct MessageReceipt {
    pub remote_jid: String,
    pub participant: Option<String>,
    pub message_ids: Vec<String>,
}

pub open spec fn string_views(v: Seq<String>) -> Seq<Seq<char>> {
    v.map_values(|s: String| s@)
}

impl MessageReceipt {
    pub fn new(remote_jid: &str, participant: Option<String>, ids: Vec<String>) -> (r: Self)
        ensures
            r.remote_jid@ == remote_jid@,
            r.participant == participant,
            r.message_ids == ids,
    {
        MessageReceipt { remote_jid: owned(remote_jid), participant, message_ids: ids }
    }
}

/// The encrypted body of a media re-upload request or answer.
#[derive(Clone, Debug, PartialEq, Eq)]
pub struct MediaRetryPayload {
    pub ciphertext: Vec<u8>,
    pub iv: Vec<u8>,
}

impl MediaRetryPayload {
    pub fn new(ciphertext: Vec<u8>, iv: Vec<u8>) -> (p: Self)
        ensures
            p.ciphertext == ciphertext,
            p.iv == iv,
    {
        MediaRetryPayload { ciphertext, iv }
    }
}

/// A failed media re-upload, as the server reports it.
#[derive(Clone, Debug, PartialEq, Eq)]
pub struct MediaRetryError {
    pub code: u16,
    pub text: Option<String>,
    pub status_code: u16,
}

/// A media re-upload answer: the message, and either the encrypted answer
/// or an error.
#[derive(Clone, Debug, PartialEq, Eq)]
pub struct MediaRetryUpdate {
    pub key: MessageKey,
    pub media: Option<MediaRetryPayload>,
    pub error: Option<MediaRetryError>,
}

// ---------------------------------------------------------------------------
// Small rules.
// ---------------------------------------------------------------------------

/// Refuses an empty value.
pub fn validate_non_empty(label: &str, value: &str) -> (r: CoreResult<()>)
    ensures
        match r {
            Ok(_) => value@.len() > 0,
            Err(e) => value@.len() == 0 && (e matches CoreError::Payload(m) && m@ == label@ + " must not be empty"@),
        },
{
    if value.is_empty() {
        return Err(CoreError::Payload(concat2(label, " must not be empty")));
    }
    Ok(())
}

/// Refuses a value that is given but empty.
pub fn validate_optional_non_empty(label: &str, value: Option<&str>) -> (r: CoreResult<()>)
    ensures
        match r {
            Ok(_) => !(value matches Some(v) && v@.len() == 0),
            Err(e) => (value matches Some(v) && v@.len() == 0) && (e matches CoreError::Payload(m) && m@ == label@
                + " must not be empty"@),
        },
{
    if let Some(v) = value {
        validate_non_empty(label, v)?;
    }
    Ok(())
}

/// Refuses a value that is given but zero.
pub fn validate_optional_non_zero(label: &str, value: Option<u32>) -> (r: CoreResult<()>)
    ensures
        match r {
            Ok(_) => value != Some(0u32),
            Err(e) => value == Some(0u32) && (e matches CoreError::Payload(m) && m@ == label@
                + " must be greater than zero"@),
        },
{
    if value == Some(0u32) {
        return Err(CoreError::Payload(concat2(label, " must be greater than zero")));
    }
    Ok(())
}

/// Refuses bytes that are not `expected` long.
pub fn validate_bytes_len(label: &str, value: &[u8], expected: usize) -> (r: CoreResult<()>)
    ensures
        match r {
            Ok(_) => value@.len() == expected,
            Err(e) => value@.len() != expected && (e matches CoreError::Payload(m) && m@ == bytes_len_text(
                label@,
                expected as nat,
            )),
        },
{
    if value.len() != expected {
        let n = crate::text::u64_to_string(expected as u64);
        let a = concat3(label, " must be ", n.as_str());
        return Err(CoreError::Payload(concat2(a.as_str(), " bytes")));
    }
    Ok(())
}

/// Refuses empty bytes.
pub fn validate_non_empty_bytes(label: &str, value: &[u8]) -> (r: CoreResult<()>)
    ensures
        match r {
            Ok(_) => value@.len() > 0,
            Err(e) => value@.len() == 0 && (e matches CoreError::Payload(m) && m@ == label@ + " must not be empty"@),
        },
{
    if value.len() == 0 {
        return Err(CoreError::Payload(concat2(label, " must not be empty")));
    }
    Ok(())
}

/// The text of the error for bytes that are not `expected` long.
pub open spec fn bytes_len_text(label: Seq<char>, expected: nat) -> Seq<char> {
    label + " must be "@ + crate::text::decimal_chars(expected) + " bytes"@
}

/// When uploaded media can be sent in a message: it has a location, every
/// location it gives is non-empty, its length is positive, and its key and
/// digests are 32 bytes.
pub open spec fn uploaded_media_ok(m: UploadedMediaView) -> bool {
    &&& (m.url matches Some(u) && u.len() > 0) || (m.direct_path matches Some(d) && d.len() > 0)
    &&& !(m.url matches Some(u) && u.len() == 0)
    &&& !(m.direct_path matches Some(d) && d.len() == 0)
    &&& m.file_length > 0
    &&& m.media_key.len() == 32
    &&& m.file_sha256.len() == 32
    &&& m.file_enc_sha256.len() == 32
}

/// The text of the error for media that cannot be sent: the first rule of
/// `uploaded_media_ok` that it breaks.
pub open spec fn uploaded_media_fault(m: UploadedMediaView) -> Seq<char> {
    if !((m.url matches Some(u) && u.len() > 0) || (m.direct_path matches Some(d) && d.len() > 0)) {
        "uploaded media requires a URL or direct path"@
    } else if m.url matches Some(u) && u.len() == 0 {
        "media URL"@ + " must not be empty"@
    } else if m.direct_path matches Some(d) && d.len() == 0 {
        "media direct path"@ + " must not be empty"@
    } else if m.file_length == 0 {
        "uploaded media file length must be greater than zero"@
    } else if m.media_key.len() != 32 {
        bytes_len_text("media key"@, 32)
    } else if m.file_sha256.len() != 32 {
        bytes_len_text("media file SHA-256"@, 32)
    } else {
        bytes_len_text("encrypted media file SHA-256"@, 32)
    }
}

/// Refuses uploaded media that cannot be sent in a message.
pub fn validate_uploaded_media(media: &UploadedMedia) -> (r: CoreResult<()>)
    ensures
        match r {
            Ok(_) => uploaded_media_ok(media@),
            Err(e) => !uploaded_media_ok(media@) && (e matches CoreError::Payload(m) && m@ == uploaded_media_fault(
                media@,
            )),
        },
{
    let has_url = match &media.url {
        Some(u) => !u.as_str().is_empty(),
        None => false,
    };
    let has_path = match &media.direct_path {
        Some(p) => !p.as_str().is_empty(),
        None => false,
    };
    if !has_url && !has_path {
        return Err(crate::error::payload("uploaded media requires a URL or direct path"));
    }
    if let Some(u) = &media.url {
        validate_non_empty("media URL", u.as_str())?;
    }
    if let Some(p) = &media.direct_path {
        validate_non_empty("media direct path", p.as_str())?;
    }
    if media.file_length == 0 {
        return Err(crate::error::payload("uploaded media file length must be greater than zero"));
    }
    validate_bytes_len("media key", media.media_key.as_slice(), 32)?;
    validate_bytes_len("media file SHA-256", media.file_sha256.as_slice(), 32)?;
    validate_bytes_len("encrypted media file SHA-256", media.file_enc_sha256.as_slice(), 32)?;
    Ok(())
}

/// When a remote thumbnail can be sent: a non-empty direct path, 32-byte
/// digests, and dimensions that are not zero when given.
pub open spec fn remote_thumbnail_ok(t: RemoteMediaThumbnail) -> bool {
    &&& t.direct_path@.len() > 0
    &&& t.sha256@.len() == 32
    &&& t.enc_sha256@.len() == 32
    &&& t.width != Some(0u32)
    &&& t.height != Some(0u32)
}

/// The text of the error for a remote thumbnail that cannot be sent.
pub open spec fn remote_thumbnail_fault(t: RemoteMediaThumbnail) -> Seq<char> {
    if t.direct_path@.len() == 0 {
        "remote media thumbnail direct path"@ + " must not be empty"@
    } else if t.sha256@.len() != 32 {
        bytes_len_text("remote media thumbnail SHA-256"@, 32)
    } else if t.enc_sha256@.len() != 32 {
        bytes_len_text("encrypted remote media thumbnail SHA-256"@, 32)
    } else if t.width == Some(0u32) {
        "remote media thumbnail width"@ + " must be greater than zero"@
    } else {
        "remote media thumbnail height"@ + " must be greater than zero"@
    }
}

/// Checks a remote thumbnail and hands it back when it can be sent.
pub fn validate_remote_media_thumbnail(thumbnail: RemoteMediaThumbnail) -> (r: CoreResult<RemoteMediaThumbnail>)
    ensures
        match r {
            Ok(t) => remote_thumbnail_ok(thumbnail) && t == thumbnail,
            Err(e) => !remote_thumbnail_ok(thumbnail) && (e matches CoreError::Payload(m) && m@
                == remote_thumbnail_fault(thumbnail)),
        },
{
    validate_non_empty("remote media thumbnail direct path", thumbnail.direct_path.as_str())?;
    validate_bytes_len("remote media thumbnail SHA-256", thumbnail.sha256.as_slice(), 32)?;
    validate_bytes_len("encrypted remote media thumbnail SHA-256", thumbnail.enc_sha256.as_slice(), 32)?;
    validate_optional_non_zero("remote media thumbnail width", thumbnail.width)?;
    validate_optional_non_zero("remote media thumbnail height", thumbnail.height)?;
    Ok(thumbnail)
}

/// `Some(true)` for a set flag, nothing otherwise.
pub fn flag(value: bool) -> (r: Option<bool>)
    ensures
        r == if value {
            Some(true)
        } else {
            None
        },
{
    if value {
        Some(true)
    } else {
        None
    }
}

pub open spec fn retry_status(code: u16) -> u16 {
    if code == 1 {
        200
    } else if code == 2 {
        404
    } else if code == 3 {
        412
    } else {
        418
    }
}

/// The HTTP-like status of a media re-upload error code.
pub fn media_retry_status_code(code: u16) -> (s: u16)
    ensures
        s == retry_status(code),
{
    match code {
        1 => 200,
        2 => 404,
        3 => 412,
        _ => 418,
    }
}

/// Refuses a message secret that is not 32 bytes.
pub fn validate_poll_event_message_secret(label: &str, value: &[u8]) -> (r: CoreResult<()>)
    ensures
        match r {
            Ok(_) => value@.len() == 32,
            Err(e) => value@.len() != 32 && (e matches CoreError::Payload(m) && m@ == label@ + " must be 32 bytes"@),
        },
{
    if value.len() != 32 {
        return Err(CoreError::Payload(concat2(label, " must be 32 bytes")));
    }
    Ok(())
}

/// The additional authenticated data of a poll vote or event response: the
/// message id, a zero byte, the voter's JID.
pub fn poll_event_additional_data(message_id: &str, actor_jid: &str) -> (aad: Vec<u8>)
    ensures
        aad@ == encode_utf8(message_id@) + seq![0u8] + encode_utf8(actor_jid@),
{
    let mut aad = crate::text::copy_bytes(message_id.as_bytes());
    aad.push(0);
    let ghost mid = aad@;
    let tail = actor_jid.as_bytes();
    let mut i: usize = 0;
    while i < tail.len()
        invariant
            0 <= i <= tail@.len(),
            aad@ == mid + tail@.take(i as int),
        decreases tail@.len() - i,
    {
        aad.push(tail[i]);
        assert(tail@.take(i as int + 1) == tail@.take(i as int).push(tail@[i as int]));
        i = i + 1;
    }
    assert(tail@.take(tail@.len() as int) == tail@);
    aad
}

// ---------------------------------------------------------------------------
// Receipts and calls.
// ---------------------------------------------------------------------------

/// A JID of an individual user on a phone-number or LID server.
pub open spec fn is_user_jid_spec(j: Seq<char>) -> bool {
    jid_valid(j) && (jid_server(j) == JidServer::SWhatsAppNet || jid_server(j) == JidServer::Lid)
}

fn is_user_jid(jid: &str) -> (r: bool)
    ensures
        r == is_user_jid_spec(jid@),
{
    match jid_decode(jid) {
        Some(j) => j.server == JidServer::SWhatsAppNet || j.server == JidServer::Lid,
        None => false,
    }
}

/// A receipt is sent this way: as the sender's receipt for a message to a
/// user, addressed to the participant.
pub open spec fn sender_style(receipt: MessageReceipt, ty: MessageReceiptType) -> bool {
    ty == MessageReceiptType::Sender && is_user_jid_spec(receipt.remote_jid@)
}

/// When a receipt node can be built: valid JIDs, at least one message id and
/// no empty one, a timestamp for read receipts and a participant for sender
/// receipts to users.
pub open spec fn receipt_node_ok(receipt: MessageReceipt, ty: MessageReceiptType, ts: Option<u64>) -> bool {
    &&& jid_valid(receipt.remote_jid@)
    &&& (receipt.participant matches Some(p) ==> jid_valid(p@))
    &&& receipt.message_ids@.len() > 0
    &&& forall|i: int| 0 <= i < receipt.message_ids@.len() ==> (#[trigger] receipt.message_ids@[i])@.len() > 0
    &&& (ty.needs_timestamp() ==> ts.is_some())
    &&& (sender_style(receipt, ty) ==> receipt.participant.is_some())
}

/// Why a receipt cannot be built: the first fault.
pub open spec fn receipt_fault(receipt: MessageReceipt, ty: MessageReceiptType, ts: Option<u64>) -> Seq<char> {
    if !jid_valid(receipt.remote_jid@) {
        "invalid remote JID for receipt: "@ + receipt.remote_jid@
    } else if receipt.participant matches Some(p) && !jid_valid(p@) {
        "invalid participant JID for receipt: "@ + receipt.participant.unwrap()@
    } else if !(receipt.message_ids@.len() > 0 && forall|i: int|
        0 <= i < receipt.message_ids@.len() ==> (#[trigger] receipt.message_ids@[i])@.len() > 0) {
        "receipt requires at least one non-empty message id"@
    } else if ty.needs_timestamp() && ts.is_none() {
        "read receipts require an explicit timestamp"@
    } else {
        "sender receipt requires participant JID"@
    }
}

/// Attribute `k` of the receipt node.
pub open spec fn receipt_attr(receipt: MessageReceipt, ty: MessageReceiptType, ts: Option<u64>, k: Seq<char>) -> Option<Seq<char>> {
    if k == "id"@ {
        Some(receipt.message_ids@[0]@)
    } else if k == "t"@ {
        if ty.needs_timestamp() {
            Some(crate::text::decimal_chars(ts.unwrap() as nat))
        } else {
            None
        }
    } else if k == "recipient"@ {
        if sender_style(receipt, ty) {
            Some(receipt.remote_jid@)
        } else {
            None
        }
    } else if k == "to"@ {
        if sender_style(receipt, ty) {
            Some(receipt.participant.unwrap()@)
        } else {
            Some(receipt.remote_jid@)
        }
    } else if k == "participant"@ {
        if sender_style(receipt, ty) {
            None
        } else {
            opt_view(receipt.participant)
        }
    } else if k == "type"@ {
        ty.wire()
    } else {
        None
    }
}

/// The node holds exactly the attributes `(key, value)` listed.
pub open spec fn only_attrs(n: BinaryNode, kv: Seq<(Seq<char>, Seq<char>)>) -> bool {
    &&& forall|i: int| 0 <= i < kv.len() ==> n.attr(#[trigger] kv[i].0) == Some(kv[i].1)
    &&& forall|k: Seq<char>| (forall|i: int| 0 <= i < kv.len() ==> kv[i].0 != k) ==> #[trigger] n.attr(k) is None
}

/// The `list` of the further message ids of a receipt: one `item` per id.
pub open spec fn is_item_list(list: BinaryNode, ids: Seq<Seq<char>>) -> bool {
    &&& list.tag@ == "list"@
    &&& list.attrs@.len() == 0
    &&& list.content matches Some(NodeContent::Nodes(items)) && items@.len() == ids.len() && forall|i: int|
        0 <= i < ids.len() ==> {
            let item = #[trigger] items@[i];
            &&& item.tag@ == "item"@
            &&& only_attrs(item, seq![("id"@, ids[i])])
            &&& item.content is None
        }
}

proof fn lemma_receipt_keys_distinct()
    ensures
        "id"@ != "t"@,
        "id"@ != "recipient"@,
        "id"@ != "to"@,
        "id"@ != "participant"@,
        "id"@ != "type"@,
        "t"@ != "recipient"@,
        "t"@ != "to"@,
        "t"@ != "participant"@,
        "t"@ != "type"@,
        "recipient"@ != "to"@,
        "recipient"@ != "participant"@,
        "recipient"@ != "type"@,
        "to"@ != "participant"@,
        "to"@ != "type"@,
        "participant"@ != "type"@,
{
    reveal_strlit("id");
    reveal_strlit("t");
    reveal_strlit("recipient");
    reveal_strlit("to");
    reveal_strlit("participant");
    reveal_strlit("type");
    assert("id"@[0] != "to"@[0]);
    assert("id"@.len() != "t"@.len());
    assert("to"@.len() != "type"@.len());
    assert("t"@.len() != "to"@.len());
    assert("recipient"@.len() != "participant"@.len());
}

fn item_node(id: &str) -> (n: BinaryNode)
    ensures
        n.tag@ == "item"@,
        only_attrs(n, seq![("id"@, id@)]),
        n.content is None,
{
    let n0 = BinaryNode::new("item");
    assert(forall|k: Seq<char>| #[trigger] n0.attr(k) is None);
    let n = n0.with_attr("id", id);
    proof {
        let kv = seq![("id"@, id@)];
        assert(kv[0].0 == "id"@);
        assert forall|k: Seq<char>| (forall|i: int| 0 <= i < kv.len() ==> kv[i].0 != k) implies #[trigger] n.attr(k) is None by {
            assert(kv[0].0 != k);
        }
    }
    n
}

/// The receipt node acknowledging the messages of `receipt`.
pub fn build_receipt_node(receipt: &MessageReceipt, receipt_type: MessageReceiptType, timestamp: Option<u64>) -> (r: CoreResult<BinaryNode>)
    ensures
        match r {
            Ok(n) => {
                &&& receipt_node_ok(*receipt, receipt_type, timestamp)
                &&& n.tag@ == "receipt"@
                &&& forall|k: Seq<char>| #[trigger] n.attr(k) == receipt_attr(*receipt, receipt_type, timestamp, k)
                &&& if receipt.message_ids@.len() > 1 {
                    n.content matches Some(NodeContent::Nodes(v)) && v@.len() == 1 && is_item_list(
                        v@[0],
                        string_views(receipt.message_ids@).skip(1),
                    )
                } else {
                    n.content is None
                }
            },
            Err(e) => !receipt_node_ok(*receipt, receipt_type, timestamp) && (e matches CoreError::Payload(m) && m@
                == receipt_fault(*receipt, receipt_type, timestamp)),
        },
{
    if jid_decode(receipt.remote_jid.as_str()).is_none() {
        return Err(CoreError::Payload(concat2("invalid remote JID for receipt: ", receipt.remote_jid.as_str())));
    }
    if let Some(p) = &receipt.participant {
        if jid_decode(p.as_str()).is_none() {
            return Err(CoreError::Payload(concat2("invalid participant JID for receipt: ", p.as_str())));
        }
    }
    let ids = &receipt.message_ids;
    let mut all_non_empty = ids.len() > 0;
    let mut i: usize = 0;
    while i < ids.len()
        invariant
            0 <= i <= ids@.len(),
            all_non_empty == (ids@.len() > 0 && forall|j: int| 0 <= j < i ==> (#[trigger] ids@[j])@.len() > 0),
        decreases ids@.len() - i,
    {
        if ids[i].as_str().is_empty() {
            all_non_empty = false;
        }
        i = i + 1;
    }
    if !all_non_empty {
        return Err(crate::error::payload("receipt requires at least one non-empty message id"));
    }
    let n0 = BinaryNode::new("receipt");
    assert(forall|k: Seq<char>| #[trigger] n0.attr(k) is None);
    let mut node = n0.with_attr("id", ids[0].as_str());
    if receipt_type.requires_timestamp() {
        let t = match timestamp {
            Some(t) => t,
            None => {
                return Err(crate::error::payload("read receipts require an explicit timestamp"));
            },
        };
        let text = crate::text::u64_to_string(t);
        node = node.with_attr("t", text.as_str());
    }
    if receipt_type == MessageReceiptType::Sender && is_user_jid(receipt.remote_jid.as_str()) {
        let p = match &receipt.participant {
            Some(p) => p,
            None => {
                return Err(crate::error::payload("sender receipt requires participant JID"));
            },
        };
        node = node.with_attr("recipient", receipt.remote_jid.as_str()).with_attr("to", p.as_str());
    } else {
        node = node.with_attr("to", receipt.remote_jid.as_str());
        if let Some(p) = &receipt.participant {
            node = node.with_attr("participant", p.as_str());
        }
    }
    if let Some(t) = receipt_type.as_wire_type() {
        node = node.with_attr("type", t);
    }
    proof {
        lemma_receipt_keys_distinct();
    }
    if ids.len() > 1 {
        let mut items: Vec<BinaryNode> = Vec::new();
        let mut j: usize = 1;
        while j < ids.len()
            invariant
                1 <= j <= ids@.len(),
                items@.len() == j - 1,
                forall|q: int| 0 <= q < j - 1 ==> {
                    let item = #[trigger] items@[q];
                    &&& item.tag@ == "item"@
                    &&& only_attrs(item, seq![("id"@, ids@[q + 1]@)])
                    &&& item.content is None
                },
            decreases ids@.len() - j,
        {
            items.push(item_node(ids[j].as_str()));
            j = j + 1;
        }
        let ghost item_seq = items@;
        let list = BinaryNode::new("list").with_nodes(items);
        let ghost want = string_views(receipt.message_ids@).skip(1);
        assert forall|q: int| 0 <= q < want.len() implies want[q] == ids@[q + 1]@ by {}
        assert(list.content == Some(NodeContent::Nodes(items)));
        assert forall|q: int| 0 <= q < want.len() implies {
            let item = #[trigger] item_seq[q];
            &&& item.tag@ == "item"@
            &&& only_attrs(item, seq![("id"@, want[q])])
            &&& item.content is None
        } by {
            assert(want[q] == ids@[q + 1]@);
        }
        assert(is_item_list(list, want));
        let mut children: Vec<BinaryNode> = Vec::new();
        children.push(list);
        let ghost before = node;
        assert(receipt_node_ok(*receipt, receipt_type, timestamp));
        assert(forall|k: Seq<char>| #[trigger] before.attr(k) == receipt_attr(*receipt, receipt_type, timestamp, k));
        let node = node.with_nodes(children);
        assert(forall|k: Seq<char>| #[trigger] node.attr(k) == before.attr(k));
        return Ok(node);
    }
    Ok(node)
}

/// When a call can be rejected: valid JIDs and a call id.
pub open spec fn call_reject_ok(from_jid: Seq<char>, call_from: Seq<char>, call_id: Seq<char>) -> bool {
    jid_valid(from_jid) && jid_valid(call_from) && call_id.len() > 0
}

/// The node rejecting the call `call_id` from `call_from`.
pub fn build_call_reject_node(from_jid: &str, call_from: &str, call_id: &str) -> (r: CoreResult<BinaryNode>)
    ensures
        match r {
            Ok(n) => {
                &&& call_reject_ok(from_jid@, call_from@, call_id@)
                &&& n.tag@ == "call"@
                &&& only_attrs(n, seq![("from"@, from_jid@), ("to"@, call_from@)])
                &&& n.children().len() == 1
                &&& n.children()[0].tag@ == "reject"@
                &&& only_attrs(
                    n.children()[0],
                    seq![("call-id"@, call_id@), ("call-creator"@, call_from@), ("count"@, "0"@)],
                )
                &&& n.children()[0].content is None
            },
            Err(e) => !call_reject_ok(from_jid@, call_from@, call_id@) && (e matches CoreError::Payload(m) && m@
                == if !jid_valid(from_jid@) {
                "invalid local JID for call reject: "@ + from_jid@
            } else if !jid_valid(call_from@) {
                "invalid caller JID for call reject: "@ + call_from@
            } else {
                "call reject requires non-empty call id"@
            }),
        },
{
    if jid_decode(from_jid).is_none() {
        return Err(CoreError::Payload(concat2("invalid local JID for call reject: ", from_jid)));
    }
    if jid_decode(call_from).is_none() {
        return Err(CoreError::Payload(concat2("invalid caller JID for call reject: ", call_from)));
    }
    if call_id.is_empty() {
        return Err(crate::error::payload("call reject requires non-empty call id"));
    }
    proof {
        reveal_strlit("from");
        reveal_strlit("to");
        reveal_strlit("call-id");
        reveal_strlit("call-creator");
        reveal_strlit("count");
        assert("call-id"@.len() != "call-creator"@.len());
        assert("call-id"@.len() != "count"@.len());
        assert("count"@.len() != "call-creator"@.len());
        assert("from"@.len() != "to"@.len());
    }
    let r0 = BinaryNode::new("reject");
    assert(forall|k: Seq<char>| #[trigger] r0.attr(k) is None);
    let reject = r0.with_attr("call-id", call_id).with_attr("call-creator", call_from).with_attr("count", "0");
    proof {
        let kv = seq![("call-id"@, call_id@), ("call-creator"@, call_from@), ("count"@, "0"@)];
        assert forall|k: Seq<char>| (forall|i: int| 0 <= i < kv.len() ==> kv[i].0 != k) implies #[trigger] reject.attr(k) is None by {
            assert(kv[0].0 != k && kv[1].0 != k && kv[2].0 != k);
        }
    }
    let mut children: Vec<BinaryNode> = Vec::new();
    children.push(reject);
    let c0 = BinaryNode::new("call");
    assert(forall|k: Seq<char>| #[trigger] c0.attr(k) is None);
    let c1 = c0.with_attr("from", from_jid);
    let c2 = c1.with_attr("to", call_from);
    let call = c2.with_nodes(children);
    proof {
        let kv = seq![("from"@, from_jid@), ("to"@, call_from@)];
        assert forall|k: Seq<char>| (forall|i: int| 0 <= i < kv.len() ==> kv[i].0 != k) implies #[trigger] call.attr(k) is None by {
            assert(kv[0].0 != k && kv[1].0 != k);
            assert(call.attr(k) == c2.attr(k));
            assert(c2.attr(k) == c1.attr(k));
            assert(c1.attr(k) == c0.attr(k));
        }
    }
    Ok(call)
}

// ---------------------------------------------------------------------------
// Message keys and media re-upload requests.
// ---------------------------------------------------------------------------

/// A usable message key: a chat JID, a non-empty id and, if given, a
/// participant JID.
pub open spec fn message_key_ok(k: crate::key::MessageKeyView) -> bool {
    &&& k.remote_jid matches Some(r) && jid_valid(r)
    &&& k.id matches Some(i) && i.len() > 0
    &&& (k.participant matches Some(p) ==> jid_valid(p))
}

/// Why a message key is unusable: the first fault.
pub open spec fn message_key_fault(k: crate::key::MessageKeyView) -> Seq<char> {
    match k.remote_jid {
        None => "message key missing remote JID"@,
        Some(r) => if !jid_valid(r) {
            "invalid message key remote JID: "@ + r
        } else if !(k.id matches Some(i) && i.len() > 0) {
            "message key missing id"@
        } else {
            "invalid message key participant JID: "@ + k.participant.unwrap()
        },
    }
}

/// Refuses an unusable message key.
pub fn validate_message_key(key: &MessageKey) -> (r: CoreResult<()>)
    ensures
        match r {
            Ok(_) => message_key_ok(key@),
            Err(e) => !message_key_ok(key@) && (e matches CoreError::Payload(m) && m@ == message_key_fault(key@)),
        },
{
    let remote = match &key.remote_jid {
        Some(r) => r,
        None => {
            return Err(crate::error::payload("message key missing remote JID"));
        },
    };
    if jid_decode(remote.as_str()).is_none() {
        return Err(CoreError::Payload(concat2("invalid message key remote JID: ", remote.as_str())));
    }
    let id_ok = match &key.id {
        Some(i) => !i.as_str().is_empty(),
        None => false,
    };
    if !id_ok {
        return Err(crate::error::payload("message key missing id"));
    }
    if let Some(p) = &key.participant {
        if jid_decode(p.as_str()).is_none() {
            return Err(CoreError::Payload(concat2("invalid message key participant JID: ", p.as_str())));
        }
    }
    Ok(())
}

/// A media re-upload payload has a ciphertext and a 12-byte IV.
pub open spec fn retry_payload_ok(ciphertext: Seq<u8>, iv: Seq<u8>) -> bool {
    ciphertext.len() > 0 && iv.len() == 12
}

/// Why a re-upload payload is unusable.
pub open spec fn retry_payload_fault(ciphertext: Seq<u8>) -> Seq<char> {
    if ciphertext.len() == 0 {
        "media retry ciphertext must not be empty"@
    } else {
        "media retry iv must be 12 bytes"@
    }
}

/// Refuses a re-upload payload without ciphertext or with an IV that is not
/// 12 bytes.
pub fn validate_media_retry_payload(payload: &MediaRetryPayload) -> (r: CoreResult<()>)
    ensures
        match r {
            Ok(_) => retry_payload_ok(payload.ciphertext@, payload.iv@),
            Err(e) => !retry_payload_ok(payload.ciphertext@, payload.iv@) && (e matches CoreError::Payload(m) && m@
                == retry_payload_fault(payload.ciphertext@)),
        },
{
    if payload.ciphertext.len() == 0 {
        return Err(crate::error::payload("media retry ciphertext must not be empty"));
    }
    if payload.iv.len() != 12 {
        return Err(crate::error::payload("media retry iv must be 12 bytes"));
    }
    Ok(())
}

/// A validated message key.
pub fn build_message_key(remote_jid: &str, from_me: bool, id: &str, participant: Option<String>) -> (r: CoreResult<MessageKey>)
    ensures
        match r {
            Ok(k) => {
                &&& jid_valid(remote_jid@) && id@.len() > 0
                &&& (participant matches Some(p) ==> jid_valid(p@))
                &&& k@.remote_jid == Some(remote_jid@)
                &&& k@.from_me == Some(from_me)
                &&& k@.id == Some(id@)
                &&& k.participant == participant
            },
            Err(e) => e matches CoreError::Payload(m) && if !jid_valid(remote_jid@) {
                m@ == "invalid remote JID for message key: "@ + remote_jid@
            } else if id@.len() == 0 {
                m@ == "message id must not be empty"@
            } else {
                participant matches Some(p) && !jid_valid(p@) && m@ == "invalid participant JID for message key: "@ + p@
            },
        },
{
    if jid_decode(remote_jid).is_none() {
        return Err(CoreError::Payload(concat2("invalid remote JID for message key: ", remote_jid)));
    }
    if id.is_empty() {
        return Err(crate::error::payload("message id must not be empty"));
    }
    if let Some(p) = &participant {
        if jid_decode(p.as_str()).is_none() {
            return Err(CoreError::Payload(concat2("invalid participant JID for message key: ", p.as_str())));
        }
    }
    Ok(MessageKey { remote_jid: Some(owned(remote_jid)), from_me: Some(from_me), id: Some(owned(id)), participant })
}

pub open spec fn bool_text(b: bool) -> Seq<char> {
    if b {
        "true"@
    } else {
        "false"@
    }
}

/// When a media re-upload request can be built.
pub open spec fn retry_request_ok(key: crate::key::MessageKeyView, requester: Seq<char>, ciphertext: Seq<u8>, iv: Seq<u8>) -> bool {
    message_key_ok(key) && retry_payload_ok(ciphertext, iv) && jid_valid(requester)
}

/// The shape of a media re-upload request: a `server-error` receipt for
/// the message, to the requester's user JID, with the encrypted payload
/// under `encrypt` and the message key under `rmr`.
pub open spec fn retry_request_node(
    n: BinaryNode,
    key: crate::key::MessageKeyView,
    requester: Seq<char>,
    ciphertext: Seq<u8>,
    iv: Seq<u8>,
) -> bool {
    &&& n.tag@ == "receipt"@
    &&& only_attrs(n, seq![("id"@, key.id.unwrap()), ("to"@, normalized_user_text(requester)), ("type"@, "server-error"@)])
    &&& n.children().len() == 2
    &&& n.children()[0].tag@ == "encrypt"@
    &&& n.children()[0].attrs@.len() == 0
    &&& n.children()[0].children().len() == 2
    &&& n.children()[0].children()[0].tag@ == "enc_p"@
    &&& n.children()[0].children()[0].bytes_content() == Some(ciphertext)
    &&& n.children()[0].children()[1].tag@ == "enc_iv"@
    &&& n.children()[0].children()[1].bytes_content() == Some(iv)
    &&& n.children()[1].tag@ == "rmr"@
    &&& n.children()[1].content is None
    &&& n.children()[1].attr("jid"@) == key.remote_jid
    &&& n.children()[1].attr("from_me"@) == Some(bool_text(match key.from_me { Some(b) => b, None => false }))
    &&& n.children()[1].attr("participant"@) == key.participant
    &&& forall|k: Seq<char>| k != "jid"@ && k != "from_me"@ && k != "participant"@ ==> #[trigger] n.children()[1].attr(k) is None
}

/// Why a media re-upload request cannot be built: the first fault.
pub open spec fn retry_request_fault(
    key: crate::key::MessageKeyView,
    requester: Seq<char>,
    ciphertext: Seq<u8>,
    iv: Seq<u8>,
) -> Seq<char> {
    if !message_key_ok(key) {
        message_key_fault(key)
    } else if !retry_payload_ok(ciphertext, iv) {
        retry_payload_fault(ciphertext)
    } else {
        "invalid requester JID for media retry: "@ + requester
    }
}

/// The receipt asking the phone to re-upload the media of message `key`.
pub fn build_media_retry_request_node(key: &MessageKey, requester_jid: &str, payload: MediaRetryPayload) -> (r: CoreResult<BinaryNode>)
    ensures
        match r {
            Ok(n) => {
                &&& retry_request_ok(key@, requester_jid@, payload.ciphertext@, payload.iv@)
                &&& retry_request_node(n, key@, requester_jid@, payload.ciphertext@, payload.iv@)
            },
            Err(e) => !retry_request_ok(key@, requester_jid@, payload.ciphertext@, payload.iv@) && (e matches CoreError::Payload(
                m,
            ) && m@ == retry_request_fault(key@, requester_jid@, payload.ciphertext@, payload.iv@)),
        },
{
    validate_message_key(key)?;
    validate_media_retry_payload(&payload)?;
    let id = match &key.id {
        Some(i) => i,
        None => {
            return Err(crate::error::payload("media retry key missing id"));
        },
    };
    let remote = match &key.remote_jid {
        Some(r) => r,
        None => {
            return Err(crate::error::payload("media retry key missing remote JID"));
        },
    };
    let requester = match jid_normalized_user(requester_jid) {
        Some(r) => r,
        None => {
            return Err(CoreError::Payload(concat2("invalid requester JID for media retry: ", requester_jid)));
        },
    };
    proof {
        reveal_strlit("id");
        reveal_strlit("to");
        reveal_strlit("type");
        reveal_strlit("jid");
        reveal_strlit("from_me");
        reveal_strlit("participant");
        assert("id"@[0] != "to"@[0]);
        assert("id"@.len() != "type"@.len());
        assert("to"@.len() != "type"@.len());
        assert("jid"@.len() != "from_me"@.len());
        assert("jid"@.len() != "participant"@.len());
        assert("from_me"@.len() != "participant"@.len());
    }
    let mut parts: Vec<BinaryNode> = Vec::new();
    parts.push(BinaryNode::new("enc_p").with_bytes(payload.ciphertext));
    parts.push(BinaryNode::new("enc_iv").with_bytes(payload.iv));
    let encrypt = BinaryNode::new("encrypt").with_nodes(parts);
    let from_me = match key.from_me {
        Some(b) => b,
        None => false,
    };
    let r0 = BinaryNode::new("rmr");
    assert(forall|k: Seq<char>| #[trigger] r0.attr(k) is None);
    let r1 = r0.with_attr("jid", remote.as_str());
    let r2 = r1.with_attr("from_me", if from_me { "true" } else { "false" });
    let retry = match &key.participant {
        Some(p) => r2.with_attr("participant", p.as_str()),
        None => r2,
    };
    proof {
        assert forall|k: Seq<char>| k != "jid"@ && k != "from_me"@ && k != "participant"@ implies #[trigger] retry.attr(k) is None by {
            assert(r2.attr(k) == r1.attr(k));
            assert(r1.attr(k) == r0.attr(k));
        }
    }
    let mut children: Vec<BinaryNode> = Vec::new();
    children.push(encrypt);
    children.push(retry);
    let n0 = BinaryNode::new("receipt");
    assert(forall|k: Seq<char>| #[trigger] n0.attr(k) is None);
    let n1 = n0.with_attr("id", id.as_str());
    let n2 = n1.with_attr("to", requester.as_str());
    let n3 = n2.with_attr("type", "server-error");
    let n = n3.with_nodes(children);
    proof {
        let kv = seq![("id"@, key@.id.unwrap()), ("to"@, normalized_user_text(requester_jid@)), ("type"@, "server-error"@)];
        assert(n.attr(kv[0].0) == Some(kv[0].1));
        assert(n.attr(kv[1].0) == Some(kv[1].1));
        assert(n.attr(kv[2].0) == Some(kv[2].1));
        assert forall|k: Seq<char>| (forall|i: int| 0 <= i < kv.len() ==> kv[i].0 != k) implies #[trigger] n.attr(k) is None by {
            assert(kv[0].0 != k && kv[1].0 != k && kv[2].0 != k);
            assert(n.attr(k) == n3.attr(k));
            assert(n3.attr(k) == n2.attr(k));
            assert(n2.attr(k) == n1.attr(k));
            assert(n1.attr(k) == n0.attr(k));
        }
    }
    Ok(n)
}

/// The first child of `n` tagged `tag`.
pub open spec fn first_child(n: BinaryNode, tag: Seq<char>) -> Option<BinaryNode> {
    if n.children_tagged(tag).len() > 0 {
        Some(n.children_tagged(tag)[0])
    } else {
        None
    }
}

/// The message a re-upload answer is about is named properly.
pub open spec fn retry_header_ok(node: BinaryNode) -> bool {
    &&& (node.tag@ == "receipt"@ || node.tag@ == "notification"@)
    &&& node.attr("id"@) matches Some(id) && id.len() > 0
    &&& first_child(node, "rmr"@) matches Some(rmr) && {
        &&& rmr.attr("jid"@) matches Some(j) && jid_valid(j)
        &&& (rmr.attr("participant"@) matches Some(p) ==> jid_valid(p))
    }
}

/// The encrypted answer of a re-upload answer without error, if its nodes
/// are there: the bytes of `encrypt/enc_p` and `encrypt/enc_iv`.
pub open spec fn retry_answer(node: BinaryNode) -> Option<(Seq<u8>, Seq<u8>)> {
    match first_child(node, "encrypt"@) {
        Some(enc) => match (first_child(enc, "enc_p"@), first_child(enc, "enc_iv"@)) {
            (Some(p), Some(v)) => match (p.bytes_content(), v.bytes_content()) {
                (Some(c), Some(iv)) => Some((c, iv)),
                _ => None,
            },
            _ => None,
        },
        None => None,
    }
}

/// When a re-upload answer can be read.
pub open spec fn retry_update_ok(node: BinaryNode) -> bool {
    &&& retry_header_ok(node)
    &&& match first_child(node, "error"@) {
        Some(err) => err.attr("code"@) matches Some(c) && crate::inbound::u16_of(c).is_some(),
        None => retry_answer(node) matches Some((c, iv)) && retry_payload_ok(c, iv),
    }
}

/// The failures of a re-upload answer that are the payload's fault: an empty
/// message id, or an encrypted answer of the wrong shape.
pub open spec fn retry_update_payload_fault(node: BinaryNode) -> bool {
    ||| (node.tag@ == "receipt"@ || node.tag@ == "notification"@) && node.attr("id"@) == Some(Seq::<char>::empty())
    ||| retry_header_ok(node) && first_child(node, "error"@).is_none() && (retry_answer(node) matches Some((c, iv)) && !retry_payload_ok(c, iv))
}

fn first_child_exec<'a>(n: &'a BinaryNode, tag: &str) -> (r: Option<&'a BinaryNode>)
    ensures
        match r {
            Some(c) => first_child(*n, tag@) == Some(*c),
            None => first_child(*n, tag@).is_none(),
        },
{
    n.child_node(tag)
}

/// The text of the error for a node of a re-upload answer without bytes.
pub open spec fn answer_bytes_fault(node: BinaryNode) -> Seq<char> {
    if node.content.is_some() {
        "expected bytes content in "@ + node.tag@ + " node"@
    } else {
        "missing bytes content in "@ + node.tag@ + " node"@
    }
}

fn bytes_of_node(node: &BinaryNode) -> (r: CoreResult<Vec<u8>>)
    ensures
        match r {
            Ok(b) => node.bytes_content() == Some(b@),
            Err(e) => node.bytes_content().is_none() && (e matches CoreError::Protocol(m) && m@
                == answer_bytes_fault(*node)),
        },
{
    match &node.content {
        Some(NodeContent::Bytes(b)) => Ok(b.clone()),
        Some(_) => Err(CoreError::Protocol(concat3("expected bytes content in ", node.tag.as_str(), " node"))),
        None => Err(CoreError::Protocol(concat3("missing bytes content in ", node.tag.as_str(), " node"))),
    }
}

/// What a readable re-upload answer says: the message key from the node
/// id and its `rmr` child, and either the error of its `error` child or
/// its encrypted answer.
pub open spec fn retry_update_read(node: BinaryNode, u: MediaRetryUpdate) -> bool {
    let rmr = first_child(node, "rmr"@).unwrap();
    &&& u.key@.id == node.attr("id"@)
    &&& u.key@.remote_jid == rmr.attr("jid"@)
    &&& u.key@.participant == rmr.attr("participant"@)
    &&& u.key@.from_me == Some(rmr.attr("from_me"@) == Some("true"@))
    &&& match first_child(node, "error"@) {
        Some(err) => {
            &&& u.media.is_none()
            &&& u.error matches Some(e) && {
                &&& Some(e.code) == crate::inbound::u16_of(err.attr("code"@).unwrap())
                &&& opt_view(e.text) == err.attr("text"@)
                &&& e.status_code == retry_status(e.code)
            }
        },
        None => {
            &&& u.error.is_none()
            &&& u.media matches Some(p) && retry_answer(node) == Some((p.ciphertext@, p.iv@))
        },
    }
}

/// The text of the error for a re-upload answer that cannot be read: the
/// first rule of `retry_update_ok` that it breaks.
pub open spec fn retry_update_fault(node: BinaryNode) -> Seq<char> {
    let rmr = first_child(node, "rmr"@).unwrap();
    if !(node.tag@ == "receipt"@ || node.tag@ == "notification"@) {
        "media retry update must be a receipt or notification node, got "@ + node.tag@
    } else if node.attr("id"@).is_none() {
        "media retry node missing id"@
    } else if node.attr("id"@).unwrap().len() == 0 {
        "media retry node id must not be empty"@
    } else if first_child(node, "rmr"@).is_none() {
        "media retry node missing rmr node"@
    } else if rmr.attr("jid"@).is_none() {
        "media retry rmr node missing jid"@
    } else if !jid_valid(rmr.attr("jid"@).unwrap()) {
        "invalid media retry remote JID: "@ + rmr.attr("jid"@).unwrap()
    } else if rmr.attr("participant"@) matches Some(p) && !jid_valid(p) {
        "invalid media retry participant JID: "@ + rmr.attr("participant"@).unwrap()
    } else {
        match first_child(node, "error"@) {
            Some(err) => if err.attr("code"@).is_none() {
                "media retry error missing code"@
            } else {
                "invalid media retry error code"@
            },
            None => {
                let enc = first_child(node, "encrypt"@).unwrap();
                let p = first_child(enc, "enc_p"@).unwrap();
                let v = first_child(enc, "enc_iv"@).unwrap();
                if first_child(node, "encrypt"@).is_none() {
                    "media retry node missing encrypt node"@
                } else if first_child(enc, "enc_p"@).is_none() {
                    "media retry encrypt node missing enc_p"@
                } else if p.bytes_content().is_none() {
                    answer_bytes_fault(p)
                } else if first_child(enc, "enc_iv"@).is_none() {
                    "media retry encrypt node missing enc_iv"@
                } else if v.bytes_content().is_none() {
                    answer_bytes_fault(v)
                } else {
                    retry_payload_fault(p.bytes_content().unwrap())
                }
            },
        }
    }
}

/// Reads the answer to a media re-upload request.
pub fn parse_media_retry_update(node: &BinaryNode) -> (r: CoreResult<MediaRetryUpdate>)
    ensures
        match r {
            Ok(u) => retry_update_ok(*node) && retry_update_read(*node, u),
            Err(e) => {
                &&& !retry_update_ok(*node)
                &&& (e is Payload <==> retry_update_payload_fault(*node))
                &&& (e is Payload || e is Protocol)
                &&& e.detail() == retry_update_fault(*node)
            },
        },
{
    proof {
        reveal_strlit("");
    }
    if !(str_eq(node.tag.as_str(), "receipt") || str_eq(node.tag.as_str(), "notification")) {
        return Err(CoreError::Protocol(concat2("media retry update must be a receipt or notification node, got ", node.tag.as_str())));
    }
    let id = match node.attr_str("id") {
        Some(i) => owned(i),
        None => {
            return Err(crate::error::protocol("media retry node missing id"));
        },
    };
    if id.as_str().is_empty() {
        assert(id@ =~= Seq::<char>::empty());
        return Err(crate::error::payload("media retry node id must not be empty"));
    }
    let retry = match first_child_exec(node, "rmr") {
        Some(r) => r,
        None => {
            return Err(crate::error::protocol("media retry node missing rmr node"));
        },
    };
    let remote_jid = match retry.attr_str("jid") {
        Some(j) => owned(j),
        None => {
            return Err(crate::error::protocol("media retry rmr node missing jid"));
        },
    };
    if jid_decode(remote_jid.as_str()).is_none() {
        return Err(CoreError::Protocol(concat2("invalid media retry remote JID: ", remote_jid.as_str())));
    }
    let participant = match retry.attr_str("participant") {
        Some(p) => Some(owned(p)),
        None => None,
    };
    if let Some(p) = &participant {
        if jid_decode(p.as_str()).is_none() {
            return Err(CoreError::Protocol(concat2("invalid media retry participant JID: ", p.as_str())));
        }
    }
    let from_me = match retry.attr_str("from_me") {
        Some(v) => str_eq(v, "true"),
        None => false,
    };
    let key = MessageKey { remote_jid: Some(remote_jid), from_me: Some(from_me), id: Some(id), participant };
    if let Some(error) = first_child_exec(node, "error") {
        let code_text = match error.attr_str("code") {
            Some(c) => c,
            None => {
                return Err(crate::error::protocol("media retry error missing code"));
            },
        };
        let code = match crate::text::parse_u16(code_text) {
            Some(c) => c,
            None => {
                return Err(crate::error::protocol("invalid media retry error code"));
            },
        };
        let text = match error.attr_str("text") {
            Some(t) => Some(owned(t)),
            None => None,
        };
        return Ok(MediaRetryUpdate {
            key,
            media: None,
            error: Some(MediaRetryError { code, text, status_code: media_retry_status_code(code) }),
        });
    }
    let encrypt = match first_child_exec(node, "encrypt") {
        Some(e) => e,
        None => {
            return Err(crate::error::protocol("media retry node missing encrypt node"));
        },
    };
    let enc_p = match first_child_exec(encrypt, "enc_p") {
        Some(e) => e,
        None => {
            return Err(crate::error::protocol("media retry encrypt node missing enc_p"));
        },
    };
    let ciphertext = bytes_of_node(enc_p)?;
    let enc_iv = match first_child_exec(encrypt, "enc_iv") {
        Some(e) => e,
        None => {
            return Err(crate::error::protocol("media retry encrypt node missing enc_iv"));
        },
    };
    let iv = bytes_of_node(enc_iv)?;
    let payload = MediaRetryPayload { ciphertext, iv };
    validate_media_retry_payload(&payload)?;
    Ok(MediaRetryUpdate { key, media: Some(payload), error: None })
}


/// A media re-upload request, read back as an answer, names the same
/// message (its sender flag made explicit) and carries the same encrypted
/// payload, with no error.
pub proof fn lemma_retry_request_reads_back(
    n: BinaryNode,
    key: crate::key::MessageKeyView,
    requester: Seq<char>,
    ciphertext: Seq<u8>,
    iv: Seq<u8>,
    u: MediaRetryUpdate,
)
    requires
        retry_request_ok(key, requester, ciphertext, iv),
        retry_request_node(n, key, requester, ciphertext, iv),
    ensures
        retry_update_ok(n),
        retry_update_read(n, u) ==> {
            &&& u.key@.id == key.id
            &&& u.key@.remote_jid == key.remote_jid
            &&& u.key@.participant == key.participant
            &&& u.key@.from_me == Some(key.from_me == Some(true))
            &&& u.error.is_none()
            &&& u.media matches Some(p) && p.ciphertext@ == ciphertext && p.iv@ == iv
        },
{
    reveal_strlit("rmr");
    reveal_strlit("error");
    reveal_strlit("encrypt");
    reveal_strlit("enc_p");
    reveal_strlit("enc_iv");
    reveal_strlit("true");
    reveal_strlit("false");
    reveal_strlit("receipt");
    reveal_with_fuel(crate::node::with_tag, 3);
    assert("rmr"@.len() == 3 && "error"@.len() == 5 && "encrypt"@.len() == 7);
    assert("enc_p"@.len() == 5 && "enc_iv"@.len() == 6);
    assert("true"@.len() == 4 && "false"@.len() == 5);
    let kids = n.children();
    assert(kids[0].tag@ != "rmr"@ && kids[0].tag@ != "error"@ && kids[1].tag@ != "error"@);
    assert(kids.drop_last().drop_last() =~= Seq::<BinaryNode>::empty());
    assert(kids.drop_last().last() == kids[0]);
    assert(kids.last() == kids[1]);
    assert(n.children_tagged("rmr"@) =~= seq![kids[1]]);
    assert(n.children_tagged("error"@) =~= Seq::<BinaryNode>::empty());
    assert(n.children_tagged("encrypt"@) =~= seq![kids[0]]);
    let enc = kids[0];
    let ek = enc.children();
    assert(ek.drop_last().drop_last() =~= Seq::<BinaryNode>::empty());
    assert(ek.drop_last().last() == ek[0]);
    assert(ek.last() == ek[1]);
    assert(ek[0].tag@ != "enc_iv"@ && ek[1].tag@ != "enc_p"@);
    assert(enc.children_tagged("enc_p"@) =~= seq![ek[0]]);
    assert(enc.children_tagged("enc_iv"@) =~= seq![ek[1]]);
    let kv = seq![("id"@, key.id.unwrap()), ("to"@, normalized_user_text(requester)), ("type"@, "server-error"@)];
    assert(kv[0].0 == "id"@);
    assert(n.attr("id"@) == Some(key.id.unwrap()));
}

// ---------------------------------------------------------------------------
// Message ids and participant hashes.
// ---------------------------------------------------------------------------

/// The upper-case hexadecimal digit of a value below 16.
pub open spec fn hex_digit(d: int) -> char {
    seq!['0', '1', '2', '3', '4', '5', '6', '7', '8', '9', 'A', 'B', 'C', 'D', 'E', 'F'][d]
}

/// Upper-case hexadecimal, two digits per byte.
pub open spec fn hex_text(b: Seq<u8>) -> Seq<char>
    decreases b.len(),
{
    if b.len() == 0 {
        Seq::empty()
    } else {
        hex_text(b.drop_last()) + seq![hex_digit((b.last() / 16) as int), hex_digit((b.last() % 16) as int)]
    }
}

fn hex_char(d: u8) -> (c: char)
    requires
        d < 16,
    ensures
        c == hex_digit(d as int),
{
    match d {
        0 => '0',
        1 => '1',
        2 => '2',
        3 => '3',
        4 => '4',
        5 => '5',
        6 => '6',
        7 => '7',
        8 => '8',
        9 => '9',
        10 => 'A',
        11 => 'B',
        12 => 'C',
        13 => 'D',
        14 => 'E',
        _ => 'F',
    }
}

/// Upper-case hexadecimal of some bytes.
pub fn upper_hex(bytes: &[u8]) -> (s: Vec<char>)
    ensures
        s@ == hex_text(bytes@),
{
    let mut out: Vec<char> = Vec::new();
    let mut i: usize = 0;
    while i < bytes.len()
        invariant
            0 <= i <= bytes@.len(),
            out@ == hex_text(bytes@.take(i as int)),
        decreases bytes@.len() - i,
    {
        let b = bytes[i];
        assert(b >> 4u8 == b / 16 && b & 0x0fu8 == b % 16) by (bit_vector);
        let hi = hex_char(b >> 4);
        let lo = hex_char(b & 0x0f);
        out.push(hi);
        out.push(lo);
        let ghost t = bytes@.take(i as int + 1);
        assert(t.drop_last() == bytes@.take(i as int));
        assert(t.last() == b);
        i = i + 1;
    }
    assert(bytes@.take(bytes@.len() as int) == bytes@);
    out
}

/// The bytes a v2 message id is the digest of: the time (big-endian), the
/// sender's user (at most 20 bytes) followed by as much of `@c.us` as fits
/// before byte 28, zeros, and 16 random bytes.
pub open spec fn message_id_v2_data(user: Option<Seq<u8>>, ts: u64, random: Seq<u8>) -> Seq<u8> {
    let head = crate::media::retry_store::be_u64(ts);
    let mid = match user {
        Some(u) => {
            let ub = if u.len() <= 20 { u } else { u.take(20) };
            let suffix = seq![0x40u8, 0x63u8, 0x2eu8, 0x75u8, 0x73u8];
            let room = 28 - (8 + ub.len());
            let sb = if room >= 5 { suffix } else { suffix.take(room) };
            ub + sb
        },
        None => Seq::empty(),
    };
    head + mid + Seq::new((20 - mid.len()) as nat, |i: int| 0u8) + random
}

/// The user bytes a v2 message id is built from: the UTF-8 of the user of a
/// valid JID.
pub open spec fn id_user_bytes(user_jid: Option<Seq<char>>) -> Option<Seq<u8>> {
    match user_jid {
        Some(j) => if jid_valid(j) {
            Some(encode_utf8(crate::jid::jid_user(j)))
        } else {
            None
        },
        None => None,
    }
}

/// A v2 message id: the prefix and the hexadecimal of the first 9 bytes of
/// the SHA-256 digest of the id data.
pub open spec fn message_id_v2_text(user_jid: Option<Seq<char>>, ts: u64, random: Seq<u8>) -> Seq<char> {
    MESSAGE_ID_PREFIX@ + hex_text(
        crate::media::sha256(message_id_v2_data(id_user_bytes(user_jid), ts, random)).take(9),
    )
}

fn push_bytes(out: &mut Vec<u8>, b: &[u8], n: usize)
    requires
        n <= b@.len(),
    ensures
        final(out)@ == old(out)@ + b@.take(n as int),
{
    let mut i: usize = 0;
    while i < n
        invariant
            0 <= i <= n <= b@.len(),
            out@ == old(out)@ + b@.take(i as int),
        decreases n - i,
    {
        out.push(b[i]);
        assert(b@.take(i as int + 1) == b@.take(i as int).push(b@[i as int]));
        i = i + 1;
    }
}

/// A v2 message id for a message sent by `user_jid` at `unix_timestamp`.
pub fn generate_message_id_v2(user_jid: Option<&str>, unix_timestamp: u64, random: &[u8; 16]) -> (id: String)
    ensures
        id@ == message_id_v2_text(
            match user_jid {
                Some(j) => Some(j@),
                None => None,
            },
            unix_timestamp,
            random@,
        ),
{
    let ghost uj = match user_jid {
        Some(j) => Some(j@),
        None => None::<Seq<char>>,
    };
    let mut data: Vec<u8> = Vec::new();
    let le = vstd::bytes::u64_to_le_bytes(unix_timestamp);
    let mut k: usize = 8;
    while k > 0
        invariant
            0 <= k <= 8,
            le@.len() == 8,
            data@ == le@.reverse().take(8 - k as int),
        decreases k,
    {
        k = k - 1;
        data.push(le[k]);
        assert(le@.reverse().take(8 - k as int) == le@.reverse().take(7 - k as int).push(le@[k as int]));
    }
    assert(le@.reverse().take(8) == le@.reverse());
    let ghost head = data@;
    let decoded = match user_jid {
        Some(j) => jid_decode(j),
        None => None,
    };
    let mut used: usize = 0;
    if let Some(jid) = decoded {
        let user = jid.user.as_str().as_bytes();
        let user_len = if user.len() < 20 { user.len() } else { 20 };
        push_bytes(&mut data, user, user_len);
        let suffix: [u8; 5] = [0x40, 0x63, 0x2e, 0x75, 0x73];
        let start = 8 + user_len;
        let room = 28 - start;
        let suffix_len = if room < 5 { room } else { 5 };
        push_bytes(&mut data, suffix.as_slice(), suffix_len);
        used = user_len + suffix_len;
        proof {
            let ub = if user@.len() <= 20 { user@ } else { user@.take(20) };
            assert(ub == user@.take(user_len as int));
            let sfx = seq![0x40u8, 0x63u8, 0x2eu8, 0x75u8, 0x73u8];
            assert(suffix@ == sfx);
            if room >= 5 {
                assert(sfx.take(5) == sfx);
            }
        }
    }
    let ghost mid = data@.skip(8);
    assert(data@ == head + mid);
    assert(data@ == head + mid + Seq::new((data@.len() - 8 - mid.len()) as nat, |i: int| 0u8));
    while data.len() < 28
        invariant
            8 <= data@.len() <= 28,
            data@ == head + mid + Seq::new((data@.len() - 8 - mid.len()) as nat, |i: int| 0u8),
            mid.len() <= 20,
            head.len() == 8,
            data@.len() >= 8 + mid.len(),
        decreases 28 - data@.len(),
    {
        let ghost before = data@;
        data.push(0);
        assert(Seq::new((data@.len() - 8 - mid.len()) as nat, |i: int| 0u8) =~= Seq::new(
            (before.len() - 8 - mid.len()) as nat,
            |i: int| 0u8,
        ).push(0u8));
    }
    push_bytes(&mut data, random.as_slice(), 16);
    assert(random@.take(16) == random@);
    proof {
        assert(data@ == message_id_v2_data(id_user_bytes(uj), unix_timestamp, random@));
    }
    let digest = crate::media::sha256_digest(data.as_slice());
    let hex = upper_hex(crate::media::retry_store::sub_bytes(digest.as_slice(), 0, 9).as_slice());
    let mut out = owned(MESSAGE_ID_PREFIX);
    crate::text::push_chars(&mut out, hex.as_slice());
    assert(digest@.subrange(0, 9) == digest@.take(9));
    out
}

/// Eighteen random bytes (`rand::random`).
#[verifier::external_body]
fn random_18() -> [u8; 18] {
    rand::random::<[u8; 18]>()
}

/// A random message id: the prefix and 18 random bytes in upper-case
/// hexadecimal.
pub fn generate_message_id() -> (id: String)
    ensures
        exists|random: Seq<u8>| random.len() == 18 && id@ == MESSAGE_ID_PREFIX@ + hex_text(random),
{
    let random = random_18();
    let hex = upper_hex(random.as_slice());
    let mut out = owned(MESSAGE_ID_PREFIX);
    crate::text::push_chars(&mut out, hex.as_slice());
    out
}

/// The character of a value below 64 in the standard base64 alphabet.
pub open spec fn b64_char(i: int) -> char {
    if i < 26 {
        (65 + i) as char
    } else if i < 52 {
        (97 + (i - 26)) as char
    } else if i < 62 {
        (48 + (i - 52)) as char
    } else if i == 62 {
        '+'
    } else {
        '/'
    }
}

/// Unpadded standard base64.
pub open spec fn b64_text(s: Seq<u8>) -> Seq<char>
    decreases s.len(),
{
    if s.len() == 0 {
        Seq::empty()
    } else if s.len() == 1 {
        seq![b64_char((s[0] / 4) as int), b64_char((s[0] % 4) * 16)]
    } else if s.len() == 2 {
        seq![b64_char((s[0] / 4) as int), b64_char((s[0] % 4) * 16 + s[1] / 16), b64_char((s[1] % 16) * 4)]
    } else {
        seq![
            b64_char((s[0] / 4) as int),
            b64_char((s[0] % 4) * 16 + s[1] / 16),
            b64_char((s[1] % 16) * 4 + s[2] / 64),
            b64_char((s[2] % 64) as int),
        ] + b64_text(s.skip(3))
    }
}

/// The first `limit` characters of the unpadded base64 (all of it when the
/// limit is zero or larger).
pub open spec fn b64_prefix(s: Seq<u8>, limit: nat) -> Seq<char> {
    if limit == 0 || b64_text(s).len() <= limit {
        b64_text(s)
    } else {
        b64_text(s).take(limit as int)
    }
}

proof fn lemma_b64_concat(a: Seq<u8>, b: Seq<u8>)
    requires
        a.len() % 3 == 0,
    ensures
        b64_text(a + b) == b64_text(a) + b64_text(b),
    decreases a.len(),
{
    if a.len() > 0 {
        assert((a + b).skip(3) == a.skip(3) + b);
        assert((a + b)[0] == a[0] && (a + b)[1] == a[1] && (a + b)[2] == a[2]);
        lemma_b64_concat(a.skip(3), b);
    } else {
        assert(a + b == b);
    }
}

fn b64_char_exec(i: u8) -> (c: char)
    requires
        i < 64,
    ensures
        c == b64_char(i as int),
{
    if i < 26 {
        (65 + i) as char
    } else if i < 52 {
        (97 + (i - 26)) as char
    } else if i < 62 {
        (48 + (i - 52)) as char
    } else if i == 62 {
        '+'
    } else {
        '/'
    }
}

/// The first `limit` characters of the unpadded standard base64 of `input`.
pub fn base64_prefix(input: &[u8], limit: usize) -> (out: String)
    ensures
        out@ == b64_prefix(input@, limit as nat),
{
    let mut out: Vec<char> = Vec::new();
    let mut i: usize = 0;
    while i < input.len()
        invariant
            0 <= i <= input@.len(),
            i % 3 == 0 || i == input@.len(),
            out@ == b64_text(input@.take(i as int)),
            limit == 0 || out@.len() < limit,
        decreases input@.len() - i,
    {
        let n = input.len() - i;
        let b0 = input[i];
        let b1: u8 = if n > 1 { input[i + 1] } else { 0 };
        let b2: u8 = if n > 2 { input[i + 2] } else { 0 };
        assert(b0 >> 2u8 == b0 / 4) by (bit_vector);
        assert((((b0 & 3u8) << 4u8) | (b1 >> 4u8)) == (b0 % 4) * 16 + b1 / 16) by (bit_vector);
        assert((((b1 & 15u8) << 2u8) | (b2 >> 6u8)) == (b1 % 16) * 4 + b2 / 64) by (bit_vector);
        assert(b2 & 63u8 == b2 % 64) by (bit_vector);
        let idx: [u8; 4] = [b0 >> 2, ((b0 & 3) << 4) | (b1 >> 4), ((b1 & 15) << 2) | (b2 >> 6), b2 & 63];
        let available: usize = if n == 1 { 2 } else if n == 2 { 3 } else { 4 };
        let next_i: usize = if n < 3 { input.len() } else { i + 3 };
        let ghost chunk = input@.subrange(i as int, next_i as int);
        let ghost chunk_text = b64_text(chunk);
        proof {
            assert(input@.take(next_i as int) == input@.take(i as int) + chunk);
            lemma_b64_concat(input@.take(i as int), chunk);
            assert(input@ == input@.take(next_i as int) + input@.skip(next_i as int));
            if next_i < input@.len() {
                lemma_b64_concat(input@.take(next_i as int), input@.skip(next_i as int));
            } else {
                assert(input@.take(next_i as int) == input@);
            }
            assert(chunk.len() == if n < 3 { n as int } else { 3 });
            if chunk.len() == 3 {
                assert(chunk.skip(3).len() == 0);
                assert(b64_text(chunk.skip(3)) == Seq::<char>::empty());
            }
            assert(chunk[0] == b0);
            if n > 1 { assert(chunk[1] == b1); }
            if n > 2 { assert(chunk[2] == b2); }
            assert(chunk_text.len() == available);
            if available > 0 { assert(chunk_text[0] == b64_char(idx[0] as int)); }
            if available > 1 { assert(chunk_text[1] == b64_char(idx[1] as int)); }
            if available > 2 { assert(chunk_text[2] == b64_char(idx[2] as int)); }
            if available > 3 { assert(chunk_text[3] == b64_char(idx[3] as int)); }
        }
        let ghost base = out@;
        let mut k: usize = 0;
        while k < available
            invariant
                0 <= k <= available <= 4,
                available == chunk_text.len(),
                out@ == base + chunk_text.take(k as int),
                forall|q: int| 0 <= q < available ==> chunk_text[q] == b64_char(#[trigger] idx@[q] as int),
                forall|q: int| 0 <= q < 4 ==> #[trigger] idx@[q] < 64,
                limit == 0 || base.len() + k < limit || k == 0,
                limit == 0 || base.len() < limit,
                b64_text(input@) == base + chunk_text + b64_text(input@.skip(next_i as int)),
            decreases available - k,
        {
            let c = b64_char_exec(idx[k]);
            out.push(c);
            assert(chunk_text.take(k as int + 1) == chunk_text.take(k as int).push(chunk_text[k as int]));
            if out.len() == limit {
                let ghost whole = b64_text(input@);
                assert(out@ == whole.take(limit as int));
                return crate::text::string_from_chars(out.as_slice());
            }
            k = k + 1;
        }
        assert(chunk_text.take(available as int) == chunk_text);
        i = next_i;
    }
    assert(input@.take(input@.len() as int) == input@);
    crate::text::string_from_chars(out.as_slice())
}

/// Texts in non-decreasing order.
pub open spec fn sorted_texts(s: Seq<Seq<char>>) -> bool {
    forall|i: int, j: int| 0 <= i < j < s.len() ==> !chars_lt(#[trigger] s[j], #[trigger] s[i])
}

/// The UTF-8 bytes of the texts, one after the other.
pub open spec fn flat_utf8(s: Seq<Seq<char>>) -> Seq<u8>
    decreases s.len(),
{
    if s.len() == 0 {
        Seq::empty()
    } else {
        flat_utf8(s.drop_last()) + encode_utf8(s.last())
    }
}

/// The participant hash of participants in sorted order: `2:` and the first
/// six base64 characters of the SHA-256 digest of their JIDs.
pub open spec fn participant_hash_text(sorted: Seq<Seq<char>>) -> Seq<char> {
    "2:"@ + b64_prefix(crate::media::sha256(flat_utf8(sorted)), 6)
}

/// Two sorted orderings of the same texts are the same.
pub proof fn lemma_sorted_unique(a: Seq<Seq<char>>, b: Seq<Seq<char>>)
    requires
        sorted_texts(a),
        sorted_texts(b),
        a.to_multiset() == b.to_multiset(),
    ensures
        a == b,
    decreases a.len(),
{
    broadcast use vstd::seq_lib::group_to_multiset_ensures;

    if a.len() == 0 {
        assert(b.len() == 0);
    } else {
        assert(a.contains(a[0]));
        assert(b.to_multiset().count(a[0]) > 0);
        assert(b.contains(a[0]));
        let j = choose|j: int| 0 <= j < b.len() && b[j] == a[0];
        assert(b.contains(b[0]));
        assert(a.to_multiset().count(b[0]) > 0);
        assert(a.contains(b[0]));
        let i = choose|i: int| 0 <= i < a.len() && a[i] == b[0];
        lemma_chars_order(a[0], b[0], a[0]);
        if j > 0 {
            assert(!chars_lt(b[j], b[0]));
        }
        if i > 0 {
            assert(!chars_lt(a[i], a[0]));
        }
        assert(a[0] == b[0]);
        let a1 = a.drop_first();
        let b1 = b.drop_first();
        assert(a1 == a.remove(0));
        assert(b1 == b.remove(0));
        vstd::seq_lib::to_multiset_remove(a, 0);
        vstd::seq_lib::to_multiset_remove(b, 0);
        assert forall|x: int, y: int| 0 <= x < y < a1.len() implies !chars_lt(#[trigger] a1[y], #[trigger] a1[x]) by {
            assert(a1[y] == a[y + 1] && a1[x] == a[x + 1]);
        }
        assert forall|x: int, y: int| 0 <= x < y < b1.len() implies !chars_lt(#[trigger] b1[y], #[trigger] b1[x]) by {
            assert(b1[y] == b[y + 1] && b1[x] == b[x + 1]);
        }
        lemma_sorted_unique(a1, b1);
        assert(a == seq![a[0]] + a1);
        assert(b == seq![b[0]] + b1);
    }
}

pub open spec fn str_views(s: Seq<&str>) -> Seq<Seq<char>> {
    s.map_values(|x: &str| x@)
}

/// The participant hash of a group's participants, whatever order they come
/// in; refused when one of them is not a JID.
pub fn generate_participant_hash_v2(participants: &[&str]) -> (r: CoreResult<String>)
    ensures
        match r {
            Ok(h) => {
                &&& forall|i: int| 0 <= i < participants@.len() ==> jid_valid((#[trigger] participants@[i])@)
                &&& exists|q: Seq<Seq<char>>| q.to_multiset() == str_views(participants@).to_multiset()
                    && sorted_texts(q) && h@ == participant_hash_text(q)
            },
            Err(e) => exists|i: int|
                0 <= i < participants@.len() && !jid_valid((#[trigger] participants@[i])@) && (forall|j: int|
                    0 <= j < i ==> jid_valid((#[trigger] participants@[j])@)) && (e matches CoreError::Payload(m)
                    && m@ == "invalid participant JID for participant hash: "@ + participants@[i]@),
        },
{
    broadcast use vstd::seq_lib::group_to_multiset_ensures;

    let ghost input = str_views(participants@);
    let mut sorted: Vec<String> = Vec::new();
    let mut i: usize = 0;
    while i < participants.len()
        invariant
            0 <= i <= participants@.len(),
            input == str_views(participants@),
            forall|j: int| 0 <= j < i ==> jid_valid((#[trigger] participants@[j])@),
            sorted_texts(string_views(sorted@)),
            string_views(sorted@).to_multiset() == input.take(i as int).to_multiset(),
        decreases participants@.len() - i,
    {
        let p = participants[i];
        if jid_decode(p).is_none() {
            return Err(CoreError::Payload(concat2("invalid participant JID for participant hash: ", p)));
        }
        let ghost sv = string_views(sorted@);
        let mut pos: usize = 0;
        while pos < sorted.len() && crate::key::compare_text(p, sorted[pos].as_str()) != crate::recency::KeyOrder::Less
            invariant
                0 <= pos <= sorted@.len(),
                sv == string_views(sorted@),
                forall|j: int| 0 <= j < pos ==> !chars_lt(p@, #[trigger] sv[j]),
            decreases sorted@.len() - pos,
        {
            pos = pos + 1;
        }
        sorted.insert(pos, owned(p));
        proof {
            let nv = string_views(sorted@);
            assert(nv == sv.insert(pos as int, p@));
            assert forall|x: int, y: int| 0 <= x < y < nv.len() implies !chars_lt(#[trigger] nv[y], #[trigger] nv[x]) by {
                if y < pos {
                    assert(nv[x] == sv[x] && nv[y] == sv[y]);
                } else if y == pos {
                    assert(nv[x] == sv[x] && nv[y] == p@);
                } else if x < pos {
                    assert(nv[x] == sv[x] && nv[y] == sv[y - 1]);
                    lemma_chars_order(sv[y - 1], p@, sv[x]);
                    lemma_chars_order(sv[y - 1], sv[x], p@);
                    if pos < sv.len() {
                        assert(chars_lt(p@, sv[pos as int]));
                        lemma_chars_order(sv[y - 1], sv[pos as int], p@);
                        lemma_chars_order(p@, sv[pos as int], sv[y - 1]);
                        lemma_chars_order(sv[y - 1], p@, sv[pos as int]);
                        if y - 1 > pos {
                            assert(!chars_lt(sv[y - 1], sv[pos as int]));
                        }
                    }
                } else if x == pos {
                    assert(nv[x] == p@ && nv[y] == sv[y - 1]);
                    assert(chars_lt(p@, sv[pos as int]));
                    if y - 1 > pos {
                        assert(!chars_lt(sv[y - 1], sv[pos as int]));
                    }
                    lemma_chars_order(sv[y - 1], p@, sv[pos as int]);
                    lemma_chars_order(p@, sv[y - 1], p@);
                } else {
                    assert(nv[x] == sv[x - 1] && nv[y] == sv[y - 1]);
                }
            }
            vstd::seq_lib::to_multiset_insert(sv, pos as int, p@);
            assert(input[i as int] == p@);
            assert(input.take(i as int + 1) == input.take(i as int).push(p@));
            vstd::seq_lib::to_multiset_build(input.take(i as int), p@);
            assert(nv.to_multiset() == sv.to_multiset().insert(p@));
        }
        i = i + 1;
    }
    assert(input.take(participants@.len() as int) == input);
    let mut flat: Vec<u8> = Vec::new();
    let mut j: usize = 0;
    while j < sorted.len()
        invariant
            0 <= j <= sorted@.len(),
            flat@ == flat_utf8(string_views(sorted@).take(j as int)),
        decreases sorted@.len() - j,
    {
        let b = sorted[j].as_str().as_bytes();
        let ghost before = flat@;
        let mut k: usize = 0;
        while k < b.len()
            invariant
                0 <= k <= b@.len(),
                flat@ == before + b@.take(k as int),
            decreases b@.len() - k,
        {
            flat.push(b[k]);
            assert(b@.take(k as int + 1) == b@.take(k as int).push(b@[k as int]));
            k = k + 1;
        }
        assert(b@.take(b@.len() as int) == b@);
        let ghost t = string_views(sorted@).take(j as int + 1);
        assert(t.drop_last() == string_views(sorted@).take(j as int));
        assert(t.last() == sorted@[j as int]@);
        j = j + 1;
    }
    assert(string_views(sorted@).take(sorted@.len() as int) == string_views(sorted@));
    let digest = crate::media::sha256_digest(flat.as_slice());
    let prefix = base64_prefix(digest.as_slice(), 6);
    Ok(concat2("2:", prefix.as_str()))
}

/// The participant hash does not depend on the order the participants come
/// in: two sorted orderings of the same participants give the same hash.
pub proof fn lemma_participant_hash_order_free(q1: Seq<Seq<char>>, q2: Seq<Seq<char>>)
    requires
        sorted_texts(q1),
        sorted_texts(q2),
        q1.to_multiset() == q2.to_multiset(),
    ensures
        participant_hash_text(q1) == participant_hash_text(q2),
{
    lemma_sorted_unique(q1, q2);
}

// ---------------------------------------------------------------------------
// Grouping received messages into receipts.
// ---------------------------------------------------------------------------

pub type ReceiptGroup = (Seq<char>, Option<Seq<char>>);

/// Groups are ordered by chat, then participant (absent first).
pub open spec fn group_lt(a: ReceiptGroup, b: ReceiptGroup) -> bool {
    chars_lt(a.0, b.0) || (a.0 == b.0 && crate::key::opt_chars_lt(a.1, b.1))
}

proof fn lemma_group_order(a: ReceiptGroup, b: ReceiptGroup, c: ReceiptGroup)
    ensures
        !group_lt(a, a),
        group_lt(a, b) && group_lt(b, c) ==> group_lt(a, c),
        a == b || group_lt(a, b) || group_lt(b, a),
{
    lemma_chars_order(a.0, b.0, c.0);
    lemma_chars_order(b.0, a.0, c.0);
    match (a.1, b.1, c.1) {
        (Some(x), Some(y), Some(z)) => {
            lemma_chars_order(x, y, z);
            lemma_chars_order(y, x, z);
        },
        (Some(x), Some(y), _) => {
            lemma_chars_order(x, y, x);
        },
        (Some(x), _, _) => {
            lemma_chars_order(x, x, x);
        },
        _ => {},
    }
}

/// A message sent by this client (it gets no receipt).
pub open spec fn own_key(k: crate::key::MessageKeyView) -> bool {
    k.from_me == Some(true)
}

/// A key that needs a receipt names a chat, an id and, if any, an author.
pub open spec fn receipt_key_ok(k: crate::key::MessageKeyView) -> bool {
    own_key(k) || message_key_ok(k)
}

/// Why a key cannot be acknowledged: the first fault.
pub open spec fn receipt_key_fault(k: crate::key::MessageKeyView) -> Seq<char> {
    match k.remote_jid {
        None => "message key missing remote JID for receipt"@,
        Some(r) => if !jid_valid(r) {
            "invalid remote JID for receipt: "@ + r
        } else {
            match k.id {
                None => "message key missing id for receipt"@,
                Some(i) => if i.len() == 0 {
                    "message key id must not be empty for receipt"@
                } else {
                    "invalid participant JID for receipt: "@ + k.participant.unwrap()
                },
            }
        },
    }
}

pub open spec fn group_of(k: crate::key::MessageKeyView) -> ReceiptGroup {
    (k.remote_jid.unwrap(), k.participant)
}

/// The ids, in order, of the messages of group `g` that need a receipt.
pub open spec fn ids_for(keys: Seq<crate::key::MessageKeyView>, g: ReceiptGroup) -> Seq<Seq<char>>
    decreases keys.len(),
{
    if keys.len() == 0 {
        Seq::empty()
    } else {
        let k = keys.last();
        if !own_key(k) && group_of(k) == g {
            ids_for(keys.drop_last(), g).push(k.id.unwrap())
        } else {
            ids_for(keys.drop_last(), g)
        }
    }
}

pub open spec fn receipt_view(r: MessageReceipt) -> (Seq<char>, Option<Seq<char>>, Seq<Seq<char>>) {
    (r.remote_jid@, opt_view(r.participant), string_views(r.message_ids@))
}

pub open spec fn key_views(keys: Seq<MessageKey>) -> Seq<crate::key::MessageKeyView> {
    keys.map_values(|k: MessageKey| k@)
}

/// The receipts for some keys: one per group of messages that need one, in
/// group order, each with the ids of its messages in the order given.
pub open spec fn receipts_for(r: Seq<(Seq<char>, Option<Seq<char>>, Seq<Seq<char>>)>, keys: Seq<crate::key::MessageKeyView>) -> bool {
    &&& forall|i: int, j: int| 0 <= i < j < r.len() ==> group_lt((#[trigger] r[i].0, r[i].1), (#[trigger] r[j].0, r[j].1))
    &&& forall|i: int| 0 <= i < r.len() ==> (#[trigger] r[i]).2 == ids_for(keys, (r[i].0, r[i].1)) && r[i].2.len() > 0
    &&& forall|j: int| 0 <= j < keys.len() && !own_key(#[trigger] keys[j]) ==> exists|i: int| 0 <= i < r.len() && (r[i].0, r[i].1) == group_of(keys[j])
}

proof fn lemma_ids_for_step(keys: Seq<crate::key::MessageKeyView>, i: int, g: ReceiptGroup)
    requires
        0 <= i < keys.len(),
    ensures
        ids_for(keys.take(i + 1), g) == if !own_key(keys[i]) && group_of(keys[i]) == g {
            ids_for(keys.take(i), g).push(keys[i].id.unwrap())
        } else {
            ids_for(keys.take(i), g)
        },
{
    let t = keys.take(i + 1);
    assert(t.drop_last() == keys.take(i));
    assert(t.last() == keys[i]);
}

proof fn lemma_ids_for_absent(keys: Seq<crate::key::MessageKeyView>, g: ReceiptGroup)
    requires
        forall|j: int| 0 <= j < keys.len() && !own_key(#[trigger] keys[j]) ==> group_of(keys[j]) != g,
    ensures
        ids_for(keys, g).len() == 0,
    decreases keys.len(),
{
    if keys.len() > 0 {
        assert forall|j: int| 0 <= j < keys.drop_last().len() && !own_key(#[trigger] keys.drop_last()[j]) implies group_of(keys.drop_last()[j]) != g by {
            assert(keys.drop_last()[j] == keys[j]);
        }
        lemma_ids_for_absent(keys.drop_last(), g);
    }
}

fn copy_opt(o: &Option<String>) -> (r: Option<String>)
    ensures
        opt_view(r) == opt_view(*o),
{
    crate::text::clone_opt_string(o)
}

fn compare_group(a_remote: &str, a_part: &Option<String>, b_remote: &str, b_part: &Option<String>) -> (r: crate::recency::KeyOrder)
    ensures
        (r == crate::recency::KeyOrder::Less) == group_lt((a_remote@, opt_view(*a_part)), (b_remote@, opt_view(*b_part))),
        (r == crate::recency::KeyOrder::Equal) == ((a_remote@, opt_view(*a_part)) == (b_remote@, opt_view(*b_part))),
{
    proof {
        lemma_group_order((a_remote@, opt_view(*a_part)), (b_remote@, opt_view(*b_part)), (a_remote@, opt_view(*a_part)));
        lemma_chars_order(a_remote@, b_remote@, a_remote@);
    }
    let c = crate::key::compare_text(a_remote, b_remote);
    if c != crate::recency::KeyOrder::Equal {
        return c;
    }
    match (a_part, b_part) {
        (None, None) => crate::recency::KeyOrder::Equal,
        (None, Some(_)) => crate::recency::KeyOrder::Less,
        (Some(_), None) => crate::recency::KeyOrder::Greater,
        (Some(x), Some(y)) => {
            proof {
                lemma_chars_order(x@, y@, x@);
            }
            crate::key::compare_text(x.as_str(), y.as_str())
        },
    }
}

/// The receipts owed for received messages: one per chat and author, in
/// chat order, each listing its message ids in the order given. Messages
/// sent by this client are skipped; a key without chat, id or with an
/// invalid JID is refused.
pub fn aggregate_receipts_from_message_keys(keys: &[MessageKey]) -> (r: CoreResult<Vec<MessageReceipt>>)
    ensures
        match r {
            Ok(v) => {
                &&& forall|j: int| 0 <= j < keys@.len() ==> receipt_key_ok((#[trigger] keys@[j])@)
                &&& receipts_for(v@.map_values(|x: MessageReceipt| receipt_view(x)), key_views(keys@))
            },
            Err(e) => exists|j: int|
                0 <= j < keys@.len() && !receipt_key_ok((#[trigger] keys@[j])@) && (forall|q: int|
                    0 <= q < j ==> receipt_key_ok((#[trigger] keys@[q])@)) && (e matches CoreError::Payload(m)
                    && m@ == receipt_key_fault(keys@[j]@)),
        },
{
    let ghost kv = key_views(keys@);
    let mut out: Vec<MessageReceipt> = Vec::new();
    let mut i: usize = 0;
    while i < keys.len()
        invariant
            0 <= i <= keys@.len(),
            kv == key_views(keys@),
            forall|j: int| 0 <= j < i ==> receipt_key_ok((#[trigger] keys@[j])@),
            receipts_for(out@.map_values(|x: MessageReceipt| receipt_view(x)), kv.take(i as int)),
        decreases keys@.len() - i,
    {
        let key = &keys[i];
        assert(kv[i as int] == key@);
        let ghost before = out@.map_values(|x: MessageReceipt| receipt_view(x));
        let own = match key.from_me {
            Some(b) => b,
            None => false,
        };
        if own {
            proof {
                assert forall|g: ReceiptGroup| #[trigger] ids_for(kv.take(i as int + 1), g) == ids_for(kv.take(i as int), g) by {
                    lemma_ids_for_step(kv, i as int, g);
                }
                assert forall|j: int| 0 <= j < kv.take(i as int + 1).len() && !own_key(#[trigger] kv.take(i as int + 1)[j]) implies exists|q: int| 0 <= q < before.len() && (before[q].0, before[q].1) == group_of(kv.take(i as int + 1)[j]) by {
                    assert(kv.take(i as int + 1)[j] == kv.take(i as int)[j]);
                }
            }
            i = i + 1;
            continue;
        }
        let remote = match &key.remote_jid {
            Some(r) => r,
            None => {
                return Err(crate::error::payload("message key missing remote JID for receipt"));
            },
        };
        if jid_decode(remote.as_str()).is_none() {
            return Err(CoreError::Payload(concat2("invalid remote JID for receipt: ", remote.as_str())));
        }
        let id = match &key.id {
            Some(x) => x,
            None => {
                return Err(crate::error::payload("message key missing id for receipt"));
            },
        };
        if id.as_str().is_empty() {
            return Err(crate::error::payload("message key id must not be empty for receipt"));
        }
        if let Some(p) = &key.participant {
            if jid_decode(p.as_str()).is_none() {
                return Err(CoreError::Payload(concat2("invalid participant JID for receipt: ", p.as_str())));
            }
        }
        let ghost g: ReceiptGroup = (remote@, opt_view(key.participant));
        assert(group_of(kv[i as int]) == g);
        let mut pos: usize = 0;
        while pos < out.len() && compare_group(out[pos].remote_jid.as_str(), &out[pos].participant, remote.as_str(), &key.participant) == crate::recency::KeyOrder::Less
            invariant
                0 <= pos <= out@.len(),
                before == out@.map_values(|x: MessageReceipt| receipt_view(x)),
                g == (remote@, opt_view(key.participant)),
                forall|j: int| 0 <= j < pos ==> group_lt((#[trigger] before[j].0, before[j].1), g),
            decreases out@.len() - pos,
        {
            assert(before[pos as int] == receipt_view(out@[pos as int]));
            pos = pos + 1;
        }
        let found = pos < out.len() && compare_group(out[pos].remote_jid.as_str(), &out[pos].participant, remote.as_str(), &key.participant) == crate::recency::KeyOrder::Equal;
        proof {
            assert forall|g2: ReceiptGroup| #[trigger] ids_for(kv.take(i as int + 1), g2) == if g2 == g {
                ids_for(kv.take(i as int), g2).push(id@)
            } else {
                ids_for(kv.take(i as int), g2)
            } by {
                lemma_ids_for_step(kv, i as int, g2);
            }
        }
        if found {
            let mut rec = out.remove(pos);
            rec.message_ids.push(crate::text::clone_string(id));
            out.insert(pos, rec);
            proof {
                let after = out@.map_values(|x: MessageReceipt| receipt_view(x));
                assert(before[pos as int].0 == g.0 && before[pos as int].1 == g.1);
                assert(string_views(rec.message_ids@) == before[pos as int].2.push(id@));
                assert(after == before.update(pos as int, (g.0, g.1, before[pos as int].2.push(id@))));
                assert forall|x: int, y: int| 0 <= x < y < after.len() implies group_lt((#[trigger] after[x].0, after[x].1), (#[trigger] after[y].0, after[y].1)) by {
                    assert(after[x].0 == before[x].0 && after[x].1 == before[x].1);
                    assert(after[y].0 == before[y].0 && after[y].1 == before[y].1);
                }
                assert forall|x: int| 0 <= x < after.len() implies (#[trigger] after[x]).2 == ids_for(kv.take(i as int + 1), (after[x].0, after[x].1)) && after[x].2.len() > 0 by {
                    if x != pos {
                        assert(after[x] == before[x]);
                        lemma_group_order((before[x].0, before[x].1), g, g);
                    }
                }
                assert forall|j: int| 0 <= j < kv.take(i as int + 1).len() && !own_key(#[trigger] kv.take(i as int + 1)[j]) implies exists|q: int| 0 <= q < after.len() && (after[q].0, after[q].1) == group_of(kv.take(i as int + 1)[j]) by {
                    if j < i {
                        assert(kv.take(i as int + 1)[j] == kv.take(i as int)[j]);
                        let q = choose|q: int| 0 <= q < before.len() && (before[q].0, before[q].1) == group_of(kv.take(i as int)[j]);
                        assert(after[q].0 == before[q].0 && after[q].1 == before[q].1);
                    } else {
                        assert(kv.take(i as int + 1)[j] == kv[i as int]);
                        assert(after[pos as int].0 == g.0 && after[pos as int].1 == g.1);
                    }
                }
            }
        } else {
            let mut ids: Vec<String> = Vec::new();
            ids.push(crate::text::clone_string(id));
            let rec = MessageReceipt { remote_jid: crate::text::clone_string(remote), participant: copy_opt(&key.participant), message_ids: ids };
            out.insert(pos, rec);
            proof {
                let after = out@.map_values(|x: MessageReceipt| receipt_view(x));
                let e = (g.0, g.1, seq![id@]);
                assert(string_views(ids@) == seq![id@]);
                assert(after == before.insert(pos as int, e));
                assert forall|y: int| pos <= y < before.len() implies group_lt(g, (#[trigger] before[y].0, before[y].1)) by {
                    lemma_group_order(g, (before[pos as int].0, before[pos as int].1), (before[y].0, before[y].1));
                    lemma_group_order((before[pos as int].0, before[pos as int].1), g, g);
                    if y > pos {
                        assert(group_lt((before[pos as int].0, before[pos as int].1), (before[y].0, before[y].1)));
                    }
                }
                assert forall|x: int, y: int| 0 <= x < y < after.len() implies group_lt((#[trigger] after[x].0, after[x].1), (#[trigger] after[y].0, after[y].1)) by {
                    if y < pos {
                        assert(after[x] == before[x] && after[y] == before[y]);
                    } else if y == pos {
                        assert(after[x] == before[x] && after[y] == e);
                    } else if x < pos {
                        assert(after[x] == before[x] && after[y] == before[y - 1]);
                        lemma_group_order((before[x].0, before[x].1), g, (before[y - 1].0, before[y - 1].1));
                    } else if x == pos {
                        assert(after[x] == e && after[y] == before[y - 1]);
                    } else {
                        assert(after[x] == before[x - 1] && after[y] == before[y - 1]);
                    }
                }
                assert forall|q: int| 0 <= q < before.len() implies (before[q].0, before[q].1) != g by {
                    lemma_group_order((before[q].0, before[q].1), g, g);
                }
                assert(ids_for(kv.take(i as int), g).len() == 0) by {
                    assert forall|j: int| 0 <= j < kv.take(i as int).len() && !own_key(#[trigger] kv.take(i as int)[j]) implies group_of(kv.take(i as int)[j]) != g by {
                        let q = choose|q: int| 0 <= q < before.len() && (before[q].0, before[q].1) == group_of(kv.take(i as int)[j]);
                    }
                    lemma_ids_for_absent(kv.take(i as int), g);
                }
                assert(ids_for(kv.take(i as int), g) == Seq::<Seq<char>>::empty());
                assert forall|x: int| 0 <= x < after.len() implies (#[trigger] after[x]).2 == ids_for(kv.take(i as int + 1), (after[x].0, after[x].1)) && after[x].2.len() > 0 by {
                    if x < pos {
                        assert(after[x] == before[x]);
                    } else if x > pos {
                        assert(after[x] == before[x - 1]);
                    } else {
                        assert(seq![id@] == Seq::<Seq<char>>::empty().push(id@));
                    }
                }
                assert forall|j: int| 0 <= j < kv.take(i as int + 1).len() && !own_key(#[trigger] kv.take(i as int + 1)[j]) implies exists|q: int| 0 <= q < after.len() && (after[q].0, after[q].1) == group_of(kv.take(i as int + 1)[j]) by {
                    if j < i {
                        assert(kv.take(i as int + 1)[j] == kv.take(i as int)[j]);
                        let q = choose|q: int| 0 <= q < before.len() && (before[q].0, before[q].1) == group_of(kv.take(i as int)[j]);
                        if q < pos {
                            assert(after[q] == before[q]);
                        } else {
                            assert(after[q + 1] == before[q]);
                        }
                    } else {
                        assert(kv.take(i as int + 1)[j] == kv[i as int]);
                        assert(after[pos as int] == e);
                    }
                }
            }
        }
        i = i + 1;
    }
    assert(kv.take(keys@.len() as int) == kv);
    Ok(out)
}

// ---------------------------------------------------------------------------
// Context of an outgoing message.
// ---------------------------------------------------------------------------

/// A message being quoted: its chat, its author in groups, its id, and the
/// quoted message in its encoded form.
#[derive(Clone, Debug, PartialEq, Eq)]
pub struct QuotedMessage {
    pub remote_jid: String,
    pub participant: Option<String>,
    pub stanza_id: String,
    pub message: Vec<u8>,
}

impl QuotedMessage {
    /// A quote of message `stanza_id` in chat `remote_jid`, with no author.
    pub fn new(remote_jid: String, stanza_id: String, message: Vec<u8>) -> (q: Self)
        ensures
            q.remote_jid == remote_jid,
            q.participant is None,
            q.stanza_id == stanza_id,
            q.message == message,
    {
        QuotedMessage { remote_jid, participant: None, stanza_id, message }
    }

    /// The same quote, by `participant`.
    pub fn with_participant(self, participant: String) -> (q: Self)
        ensures
            q.participant == Some(participant),
            q.remote_jid == self.remote_jid,
            q.stanza_id == self.stanza_id,
            q.message == self.message,
    {
        QuotedMessage { participant: Some(participant), ..self }
    }
}

/// What an outgoing message carries beside its content: mentions, a quote,
/// forwarding and expiration.
#[derive(Clone, Debug, PartialEq, Eq)]
pub struct MessageContext {
    pub mentioned_jids: Vec<String>,
    pub quoted: Option<QuotedMessage>,
    pub forwarding_score: Option<u32>,
    pub is_forwarded: bool,
    pub expiration: Option<u32>,
}

impl Default for MessageContext {
    fn default() -> (c: Self)
        ensures
            c.mentioned_jids@ == Seq::<String>::empty(),
            c.quoted is None,
            c.forwarding_score is None,
            !c.is_forwarded,
            c.expiration is None,
    {
        MessageContext::new()
    }
}

impl MessageContext {
    /// A context with nothing in it.
    pub fn new() -> (c: Self)
        ensures
            c.mentioned_jids@ == Seq::<String>::empty(),
            c.quoted is None,
            c.forwarding_score is None,
            !c.is_forwarded,
            c.expiration is None,
    {
        MessageContext {
            mentioned_jids: Vec::new(),
            quoted: None,
            forwarding_score: None,
            is_forwarded: false,
            expiration: None,
        }
    }

    /// The same context, mentioning `jid` after the others.
    pub fn with_mention(self, jid: String) -> (c: Self)
        ensures
            c.mentioned_jids@ == self.mentioned_jids@.push(jid),
            c.quoted == self.quoted,
            c.forwarding_score == self.forwarding_score,
            c.is_forwarded == self.is_forwarded,
            c.expiration == self.expiration,
    {
        let mut mentioned_jids = self.mentioned_jids;
        mentioned_jids.push(jid);
        MessageContext { mentioned_jids, ..self }
    }

    /// The same context, mentioning `jids`, in order, after the others.
    pub fn with_mentions(self, jids: Vec<String>) -> (c: Self)
        ensures
            c.mentioned_jids@ == self.mentioned_jids@ + jids@,
            c.quoted == self.quoted,
            c.forwarding_score == self.forwarding_score,
            c.is_forwarded == self.is_forwarded,
            c.expiration == self.expiration,
    {
        let mut mentioned_jids = self.mentioned_jids;
        let mut more = jids;
        mentioned_jids.append(&mut more);
        MessageContext { mentioned_jids, ..self }
    }

    /// The same context, quoting `quoted`.
    pub fn with_quote(self, quoted: QuotedMessage) -> (c: Self)
        ensures
            c.quoted == Some(quoted),
            c.mentioned_jids == self.mentioned_jids,
            c.forwarding_score == self.forwarding_score,
            c.is_forwarded == self.is_forwarded,
            c.expiration == self.expiration,
    {
        MessageContext { quoted: Some(quoted), ..self }
    }

    /// The same context, marked forwarded with `forwarding_score`.
    pub fn forwarded(self, forwarding_score: u32) -> (c: Self)
        ensures
            c.is_forwarded,
            c.forwarding_score == Some(forwarding_score),
            c.mentioned_jids == self.mentioned_jids,
            c.quoted == self.quoted,
            c.expiration == self.expiration,
    {
        MessageContext { is_forwarded: true, forwarding_score: Some(forwarding_score), ..self }
    }

    /// The same context, expiring after `seconds`.
    pub fn with_expiration(self, seconds: u32) -> (c: Self)
        ensures
            c.expiration == Some(seconds),
            c.mentioned_jids == self.mentioned_jids,
            c.quoted == self.quoted,
            c.forwarding_score == self.forwarding_score,
            c.is_forwarded == self.is_forwarded,
    {
        MessageContext { expiration: Some(seconds), ..self }
    }
}

/// Whether a receipt kind this client sends and a kind the receipt parser
/// reports are the same kind.
pub open spec fn same_receipt_kind(t: MessageReceiptType, k: crate::inbound::InboundReceiptKind) -> bool {
    match t {
        MessageReceiptType::Delivery => k is Delivery,
        MessageReceiptType::Read => k is Read,
        MessageReceiptType::ReadSelf => k is ReadSelf,
        MessageReceiptType::HistorySync => k is HistorySync,
        MessageReceiptType::PeerMessage => k is PeerMessage,
        MessageReceiptType::Sender => k is Sender,
        MessageReceiptType::Inactive => k is Inactive,
        MessageReceiptType::Played => k is Played,
    }
}

/// A receipt this client sends is read back by the receipt parser as the
/// kind it was sent as: the `type` attribute of each kind names that kind,
/// so distinct kinds never share a `type`, and only a delivery receipt has
/// none; exactly the receipts sent as `read` or `read-self` carry a time.
pub proof fn lemma_receipt_type_read_back(t: MessageReceiptType, u: MessageReceiptType, k: crate::inbound::InboundReceiptKind)
    ensures
        crate::inbound::receipt_kind_is(k, t.wire()) <==> same_receipt_kind(t, k),
        t.wire() == u.wire() ==> t == u,
        t.wire() is None <==> t == MessageReceiptType::Delivery,
        t.needs_timestamp() <==> (t.wire() == Some("read"@) || t.wire() == Some("read-self"@)),
{
    reveal_strlit("");
    reveal_strlit("read");
    reveal_strlit("read-self");
    reveal_strlit("hist_sync");
    reveal_strlit("peer_msg");
    reveal_strlit("sender");
    reveal_strlit("inactive");
    reveal_strlit("played");
    reveal_strlit("retry");
    reveal_strlit("server-error");
    if t == MessageReceiptType::Read || u == MessageReceiptType::Read {
        assert("read"@.len() != ""@.len());
        assert("read"@.len() != "read-self"@.len());
        assert("read"@.len() != "hist_sync"@.len());
        assert("read"@.len() != "peer_msg"@.len());
        assert("read"@.len() != "sender"@.len());
        assert("read"@.len() != "inactive"@.len());
        assert("read"@.len() != "played"@.len());
        assert("read"@.len() != "retry"@.len());
        assert("read"@.len() != "server-error"@.len());
    }
    if t == MessageReceiptType::ReadSelf || u == MessageReceiptType::ReadSelf {
        assert("read-self"@.len() != ""@.len());
        assert("read-self"@.len() != "read"@.len());
        assert("read-self"@[0] != "hist_sync"@[0]);
        assert("read-self"@.len() != "peer_msg"@.len());
        assert("read-self"@.len() != "sender"@.len());
        assert("read-self"@.len() != "inactive"@.len());
        assert("read-self"@.len() != "played"@.len());
        assert("read-self"@.len() != "retry"@.len());
        assert("read-self"@.len() != "server-error"@.len());
    }
    if t == MessageReceiptType::HistorySync || u == MessageReceiptType::HistorySync {
        assert("hist_sync"@.len() != ""@.len());
        assert("hist_sync"@.len() != "read"@.len());
        assert("hist_sync"@[0] != "read-self"@[0]);
        assert("hist_sync"@.len() != "peer_msg"@.len());
        assert("hist_sync"@.len() != "sender"@.len());
        assert("hist_sync"@.len() != "inactive"@.len());
        assert("hist_sync"@.len() != "played"@.len());
        assert("hist_sync"@.len() != "retry"@.len());
        assert("hist_sync"@.len() != "server-error"@.len());
    }
    if t == MessageReceiptType::PeerMessage || u == MessageReceiptType::PeerMessage {
        assert("peer_msg"@.len() != ""@.len());
        assert("peer_msg"@.len() != "read"@.len());
        assert("peer_msg"@.len() != "read-self"@.len());
        assert("peer_msg"@.len() != "hist_sync"@.len());
        assert("peer_msg"@.len() != "sender"@.len());
        assert("peer_msg"@[0] != "inactive"@[0]);
        assert("peer_msg"@.len() != "played"@.len());
        assert("peer_msg"@.len() != "retry"@.len());
        assert("peer_msg"@.len() != "server-error"@.len());
    }
    if t == MessageReceiptType::Sender || u == MessageReceiptType::Sender {
        assert("sender"@.len() != ""@.len());
        assert("sender"@.len() != "read"@.len());
        assert("sender"@.len() != "read-self"@.len());
        assert("sender"@.len() != "hist_sync"@.len());
        assert("sender"@.len() != "peer_msg"@.len());
        assert("sender"@.len() != "inactive"@.len());
        assert("sender"@[0] != "played"@[0]);
        assert("sender"@.len() != "retry"@.len());
        assert("sender"@.len() != "server-error"@.len());
    }
    if t == MessageReceiptType::Inactive || u == MessageReceiptType::Inactive {
        assert("inactive"@.len() != ""@.len());
        assert("inactive"@.len() != "read"@.len());
        assert("inactive"@.len() != "read-self"@.len());
        assert("inactive"@.len() != "hist_sync"@.len());
        assert("inactive"@[0] != "peer_msg"@[0]);
        assert("inactive"@.len() != "sender"@.len());
        assert("inactive"@.len() != "played"@.len());
        assert("inactive"@.len() != "retry"@.len());
        assert("inactive"@.len() != "server-error"@.len());
    }
    if t == MessageReceiptType::Played || u == MessageReceiptType::Played {
        assert("played"@.len() != ""@.len());
        assert("played"@.len() != "read"@.len());
        assert("played"@.len() != "read-self"@.len());
        assert("played"@.len() != "hist_sync"@.len());
        assert("played"@.len() != "peer_msg"@.len());
        assert("played"@[0] != "sender"@[0]);
        assert("played"@.len() != "inactive"@.len());
        assert("played"@.len() != "retry"@.len());
        assert("played"@.len() != "server-error"@.len());
    }
}

} // verus!
