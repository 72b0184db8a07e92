pub mod cache;
pub mod connection;
pub mod link_preview;
pub mod coordinator;
pub mod retry_store;

pub use link_preview::{
    check_link_preview_body_chunk, check_link_preview_image_response, check_link_preview_response,
    link_preview_from_body, link_preview_from_html, parse_link_preview_fetch_url,
    resolve_link_preview_url, validate_link_preview_fetch_options,
    validate_link_preview_image_content_type, validate_link_preview_image_fetch_options,
    FetchedLinkPreview, LinkPreviewFetchOptions, LinkPreviewImageFetchOptions,
};
pub use connection::media_upload_url;
use crate::error::{CoreError, CoreResult};
use crate::json::{json_field, JsonValue};
use crate::key::{EventKeyView, MessageEventKey};
use crate::message::{UploadedMedia, UploadedMediaView};
use crate::text::{concat2, concat3, opt_view, owned};
use base64::Engine;
use sha2::Digest;
use vstd::prelude::*;

verus! {

pub const DEFAULT_MEDIA_HOST: &'static str = "mmg.whatsapp.net";
pub const DEFAULT_MEDIA_ORIGIN: &'static str = "https://web.whatsapp.com";
pub const DEFAULT_MEDIA_UPLOAD_CACHE_CAPACITY: usize = 128;
pub const DEFAULT_MEDIA_UPLOAD_CACHE_TTL_MS: u64 = 3_600_000;
pub const DEFAULT_MEDIA_FILE_CHUNK_BYTES: usize = 65_536;
pub const DEFAULT_MEDIA_RETRY_COORDINATOR_CAPACITY: usize = 256;
pub const DEFAULT_MEDIA_RETRY_COORDINATOR_TTL_MS: u64 = 300_000;
pub const DEFAULT_LINK_PREVIEW_FETCH_MAX_HTML_BYTES: usize = 524_288;
pub const DEFAULT_LINK_PREVIEW_FETCH_TIMEOUT_MS: u64 = 10_000;
pub const DEFAULT_LINK_PREVIEW_FETCH_USER_AGENT: &'static str = "Mozilla/5.0 (WhatsAppAgent link-preview)";
pub const DEFAULT_LINK_PREVIEW_IMAGE_FETCH_MAX_BYTES: usize = 16_777_216;
pub const DEFAULT_LINK_PREVIEW_IMAGE_FETCH_TIMEOUT_MS: u64 = 10_000;

/// The kinds of media the client encrypts, uploads and downloads.
#[derive(Clone, Copy, Debug, PartialEq, Eq, Structural, Hash)]
pub enum MediaKind {
    Audio,
    Document,
    Gif,
    Image,
    ProfilePicture,
    Product,
    PushToTalk,
    Sticker,
    Video,
    ThumbnailDocument,
    ThumbnailImage,
    ThumbnailVideo,
    ThumbnailLink,
    HistorySync,
    AppState,
    ProductCatalogImage,
    PaymentBackgroundImage,
    VideoNote,
    BusinessCoverPhoto,
}

/// The stable byte that identifies a media kind in stored records.
pub open spec fn kind_id(kind: MediaKind) -> u8 {
    match kind {
        MediaKind::Audio => 0,
        MediaKind::Document => 1,
        MediaKind::Gif => 2,
        MediaKind::Image => 3,
        MediaKind::ProfilePicture => 4,
        MediaKind::Product => 5,
        MediaKind::PushToTalk => 6,
        MediaKind::Sticker => 7,
        MediaKind::Video => 8,
        MediaKind::ThumbnailDocument => 9,
        MediaKind::ThumbnailImage => 10,
        MediaKind::ThumbnailVideo => 11,
        MediaKind::ThumbnailLink => 12,
        MediaKind::HistorySync => 13,
        MediaKind::AppState => 14,
        MediaKind::ProductCatalogImage => 15,
        MediaKind::PaymentBackgroundImage => 16,
        MediaKind::VideoNote => 17,
        MediaKind::BusinessCoverPhoto => 18,
    }
}

/// The media kind a stored byte identifies, if any.
pub open spec fn kind_of_id(id: u8) -> Option<MediaKind> {
    if id == 0 {
        Some(MediaKind::Audio)
    } else if id == 1 {
        Some(MediaKind::Document)
    } else if id == 2 {
        Some(MediaKind::Gif)
    } else if id == 3 {
        Some(MediaKind::Image)
    } else if id == 4 {
        Some(MediaKind::ProfilePicture)
    } else if id == 5 {
        Some(MediaKind::Product)
    } else if id == 6 {
        Some(MediaKind::PushToTalk)
    } else if id == 7 {
        Some(MediaKind::Sticker)
    } else if id == 8 {
        Some(MediaKind::Video)
    } else if id == 9 {
        Some(MediaKind::ThumbnailDocument)
    } else if id == 10 {
        Some(MediaKind::ThumbnailImage)
    } else if id == 11 {
        Some(MediaKind::ThumbnailVideo)
    } else if id == 12 {
        Some(MediaKind::ThumbnailLink)
    } else if id == 13 {
        Some(MediaKind::HistorySync)
    } else if id == 14 {
        Some(MediaKind::AppState)
    } else if id == 15 {
        Some(MediaKind::ProductCatalogImage)
    } else if id == 16 {
        Some(MediaKind::PaymentBackgroundImage)
    } else if id == 17 {
        Some(MediaKind::VideoNote)
    } else if id == 18 {
        Some(MediaKind::BusinessCoverPhoto)
    } else {
        None
    }
}

/// Reading back the byte of a media kind gives the same kind, and every
/// byte that names a kind is that kind's byte.
pub proof fn lemma_kind_id_round_trip(kind: MediaKind, id: u8)
    ensures
        kind_of_id(kind_id(kind)) == Some(kind),
        kind_of_id(id) matches Some(k) ==> kind_id(k) == id,
        kind_of_id(id).is_none() <==> id > 18,
{
}

/// The byte that identifies `kind` in stored records.
pub fn media_kind_cache_id(kind: MediaKind) -> (id: u8)
    ensures
        id == kind_id(kind),
{
    match kind {
        MediaKind::Audio => 0,
        MediaKind::Document => 1,
        MediaKind::Gif => 2,
        MediaKind::Image => 3,
        MediaKind::ProfilePicture => 4,
        MediaKind::Product => 5,
        MediaKind::PushToTalk => 6,
        MediaKind::Sticker => 7,
        MediaKind::Video => 8,
        MediaKind::ThumbnailDocument => 9,
        MediaKind::ThumbnailImage => 10,
        MediaKind::ThumbnailVideo => 11,
        MediaKind::ThumbnailLink => 12,
        MediaKind::HistorySync => 13,
        MediaKind::AppState => 14,
        MediaKind::ProductCatalogImage => 15,
        MediaKind::PaymentBackgroundImage => 16,
        MediaKind::VideoNote => 17,
        MediaKind::BusinessCoverPhoto => 18,
    }
}

/// The media kind that a stored byte identifies; other bytes are refused.
pub fn media_kind_from_cache_id(value: u8) -> (r: CoreResult<MediaKind>)
    ensures
        match r {
            Ok(k) => kind_of_id(value) == Some(k),
            Err(e) => kind_of_id(value).is_none() && (e matches CoreError::Protocol(m) && m@
                == "stored pending media retry has invalid media kind "@ + crate::text::decimal_chars(value as nat)),
        },
{
    match value {
        0 => Ok(MediaKind::Audio),
        1 => Ok(MediaKind::Document),
        2 => Ok(MediaKind::Gif),
        3 => Ok(MediaKind::Image),
        4 => Ok(MediaKind::ProfilePicture),
        5 => Ok(MediaKind::Product),
        6 => Ok(MediaKind::PushToTalk),
        7 => Ok(MediaKind::Sticker),
        8 => Ok(MediaKind::Video),
        9 => Ok(MediaKind::ThumbnailDocument),
        10 => Ok(MediaKind::ThumbnailImage),
        11 => Ok(MediaKind::ThumbnailVideo),
        12 => Ok(MediaKind::ThumbnailLink),
        13 => Ok(MediaKind::HistorySync),
        14 => Ok(MediaKind::AppState),
        15 => Ok(MediaKind::ProductCatalogImage),
        16 => Ok(MediaKind::PaymentBackgroundImage),
        17 => Ok(MediaKind::VideoNote),
        18 => Ok(MediaKind::BusinessCoverPhoto),
        _ => {
            let v = crate::text::u64_to_string(value as u64);
            Err(
                CoreError::Protocol(
                    concat2("stored pending media retry has invalid media kind ", v.as_str()),
                ),
            )
        },
    }
}

/// The upload endpoint path for a media kind, if the kind can be uploaded.
pub open spec fn upload_path(kind: MediaKind) -> Option<Seq<char>> {
    match kind {
        MediaKind::Audio | MediaKind::PushToTalk => Some("/mms/audio"@),
        MediaKind::Document => Some("/mms/document"@),
        MediaKind::Gif | MediaKind::Video | MediaKind::VideoNote => Some("/mms/video"@),
        MediaKind::Image | MediaKind::Sticker | MediaKind::ThumbnailImage
        | MediaKind::ThumbnailVideo | MediaKind::ThumbnailLink => Some("/mms/image"@),
        MediaKind::HistorySync => Some("/mms/md-app-state"@),
        MediaKind::ProductCatalogImage => Some("/product/image"@),
        MediaKind::BusinessCoverPhoto => Some("/pps/biz-cover-photo"@),
        MediaKind::AppState | MediaKind::PaymentBackgroundImage | MediaKind::Product
        | MediaKind::ProfilePicture | MediaKind::ThumbnailDocument => None,
    }
}

/// The class of message media a kind belongs to, for the kinds sent in
/// messages: audio (voice notes too), documents, video (GIFs and round
/// video notes too) and images (stickers and the thumbnails of images,
/// videos and links too).
pub open spec fn message_media_class(kind: MediaKind) -> Option<Seq<char>> {
    match kind {
        MediaKind::Audio | MediaKind::PushToTalk => Some("audio"@),
        MediaKind::Document => Some("document"@),
        MediaKind::Gif | MediaKind::Video | MediaKind::VideoNote => Some("video"@),
        MediaKind::Image | MediaKind::Sticker | MediaKind::ThumbnailImage | MediaKind::ThumbnailVideo
        | MediaKind::ThumbnailLink => Some("image"@),
        _ => None,
    }
}

/// Message media is uploaded to the `/mms/` endpoint named after its
/// class, so kinds of one class share an endpoint and kinds of different
/// classes (documents and images, say) never do.
pub proof fn lemma_upload_path_by_class(a: MediaKind, b: MediaKind)
    ensures
        message_media_class(a) matches Some(c) ==> upload_path(a) == Some("/mms/"@ + c),
        (message_media_class(a) is Some && message_media_class(b) is Some) ==> (upload_path(a) == upload_path(b)
            <==> message_media_class(a) == message_media_class(b)),
{
    reveal_strlit("/mms/");
    reveal_strlit("audio");
    reveal_strlit("document");
    reveal_strlit("video");
    reveal_strlit("image");
    reveal_strlit("/mms/audio");
    reveal_strlit("/mms/document");
    reveal_strlit("/mms/video");
    reveal_strlit("/mms/image");
    assert("/mms/"@ + "audio"@ =~= "/mms/audio"@);
    assert("/mms/"@ + "document"@ =~= "/mms/document"@);
    assert("/mms/"@ + "video"@ =~= "/mms/video"@);
    assert("/mms/"@ + "image"@ =~= "/mms/image"@);
    assert("audio"@.len() != "document"@.len());
    assert("audio"@[0] != "video"@[0]);
    assert("audio"@[0] != "image"@[0]);
    assert("document"@.len() != "video"@.len());
    assert("document"@.len() != "image"@.len());
    assert("video"@[0] != "image"@[0]);
    assert("/mms/audio"@.len() != "/mms/document"@.len());
    assert("/mms/audio"@[5] != "/mms/video"@[5]);
    assert("/mms/audio"@[5] != "/mms/image"@[5]);
    assert("/mms/document"@.len() != "/mms/video"@.len());
    assert("/mms/document"@.len() != "/mms/image"@.len());
    assert("/mms/video"@[5] != "/mms/image"@[5]);
}

/// The upload endpoint path for a media kind, if the kind can be uploaded.
pub fn media_upload_path(kind: MediaKind) -> (r: Option<&'static str>)
    ensures
        match r {
            Some(p) => upload_path(kind) == Some(p@),
            None => upload_path(kind).is_none(),
        },
{
    match kind {
        MediaKind::Audio | MediaKind::PushToTalk => Some("/mms/audio"),
        MediaKind::Document => Some("/mms/document"),
        MediaKind::Gif | MediaKind::Video | MediaKind::VideoNote => Some("/mms/video"),
        MediaKind::Image | MediaKind::Sticker | MediaKind::ThumbnailImage
        | MediaKind::ThumbnailVideo | MediaKind::ThumbnailLink => Some("/mms/image"),
        MediaKind::HistorySync => Some("/mms/md-app-state"),
        MediaKind::ProductCatalogImage => Some("/product/image"),
        MediaKind::BusinessCoverPhoto => Some("/pps/biz-cover-photo"),
        MediaKind::AppState | MediaKind::PaymentBackgroundImage | MediaKind::Product
        | MediaKind::ProfilePicture | MediaKind::ThumbnailDocument => None,
    }
}

// ---------------------------------------------------------------------------
// Download URLs.
// ---------------------------------------------------------------------------

/// `https://` + host + direct path, with the default media host when no
/// non-empty host is given.
pub open spec fn direct_path_url(direct_path: Seq<char>, host: Option<Seq<char>>) -> Seq<char> {
    let h = match host {
        Some(h) => if h.len() > 0 {
            h
        } else {
            DEFAULT_MEDIA_HOST@
        },
        None => DEFAULT_MEDIA_HOST@,
    };
    "https://"@ + h + direct_path
}

/// The download URL of a direct path on a media host.
pub fn media_url_from_direct_path(direct_path: &str, host: Option<&str>) -> (url: String)
    ensures
        url@ == direct_path_url(
            direct_path@,
            match host {
                Some(h) => Some(h@),
                None => None,
            },
        ),
{
    let h = match host {
        Some(h) => if h.is_empty() {
            DEFAULT_MEDIA_HOST
        } else {
            h
        },
        None => DEFAULT_MEDIA_HOST,
    };
    concat3("https://", h, direct_path)
}

/// Where media is downloaded from: its direct path on the fallback host when
/// it has a non-empty direct path, else its non-empty URL; refused when it
/// has neither.
pub fn media_download_url(direct_path: Option<&str>, url: Option<&str>, fallback_host: Option<&str>) -> (r:
    CoreResult<String>)
    ensures
        match r {
            Ok(u) => match direct_path {
                Some(d) if d@.len() > 0 => u@ == direct_path_url(
                    d@,
                    match fallback_host {
                        Some(h) => Some(h@),
                        None => None,
                    },
                ),
                _ => url matches Some(x) && x@.len() > 0 && u@ == x@,
            },
            Err(e) => !(direct_path matches Some(d) && d@.len() > 0) && !(url matches Some(x) && x@.len()
                > 0) && (e matches CoreError::Payload(m) && m@ == "media download requires a direct path or URL"@),
        },
{
    if let Some(d) = direct_path {
        if !d.is_empty() {
            return Ok(media_url_from_direct_path(d, fallback_host));
        }
    }
    if let Some(u) = url {
        if !u.is_empty() {
            return Ok(owned(u));
        }
    }
    Err(crate::error::payload("media download requires a direct path or URL"))
}

/// Outcome of a media re-upload request, as reported by the phone.
#[derive(Clone, Copy, Debug, PartialEq, Eq, Structural)]
pub enum MediaRetryResult {
    GeneralError,
    Success,
    NotFound,
    DecryptionError,
}

impl MediaRetryResult {
    pub open spec fn code(self) -> u16 {
        match self {
            MediaRetryResult::Success => 200,
            MediaRetryResult::DecryptionError => 412,
            MediaRetryResult::NotFound => 404,
            MediaRetryResult::GeneralError => 418,
        }
    }

    /// HTTP-like status code that stands for this outcome.
    pub fn status_code(self) -> (code: u16)
        ensures
            code == self.code(),
    {
        match self {
            MediaRetryResult::Success => 200,
            MediaRetryResult::DecryptionError => 412,
            MediaRetryResult::NotFound => 404,
            MediaRetryResult::GeneralError => 418,
        }
    }
}

// ---------------------------------------------------------------------------
// Media awaiting a re-upload by the phone.
// ---------------------------------------------------------------------------

/// Media whose download failed and that waits for the phone to re-upload it.
#[derive(Clone, Debug, PartialEq, Eq)]
pub struct PendingMediaRetry {
    pub media: UploadedMedia,
    pub kind: MediaKind,
    pub fallback_host: Option<String>,
}

pub struct PendingMediaRetryView {
    pub media: UploadedMediaView,
    pub kind: MediaKind,
    pub fallback_host: Option<Seq<char>>,
}

impl View for PendingMediaRetry {
    type V = PendingMediaRetryView;

    open spec fn view(&self) -> PendingMediaRetryView {
        PendingMediaRetryView {
            media: self.media@,
            kind: self.kind,
            fallback_host: opt_view(self.fallback_host),
        }
    }
}

impl PendingMediaRetry {
    /// Pending media of the given kind, downloaded from its own location.
    pub fn new(media: UploadedMedia, kind: MediaKind) -> (p: Self)
        ensures
            p@ == (PendingMediaRetryView { media: media@, kind, fallback_host: None }),
    {
        PendingMediaRetry { media, kind, fallback_host: None }
    }

    /// This pending media with a host to download its direct path from.
    pub fn with_fallback_host(self, fallback_host: &str) -> (p: Self)
        ensures
            p@ == (PendingMediaRetryView { fallback_host: Some(fallback_host@), ..self@ }),
    {
        PendingMediaRetry { fallback_host: Some(owned(fallback_host)), ..self }
    }

    /// A copy of this pending media.
    pub fn copy(&self) -> (p: Self)
        ensures
            p@ == self@,
    {
        PendingMediaRetry {
            media: self.media.copy(),
            kind: self.kind,
            fallback_host: crate::text::clone_opt_string(&self.fallback_host),
        }
    }
}

impl crate::recency::RecencyValue for PendingMediaRetry {
    fn copy_value(&self) -> (r: Self) {
        self.copy()
    }
}

/// A message and the media it waits to have re-uploaded.
#[derive(Clone, Debug, PartialEq, Eq)]
pub struct MediaRetryPendingEntry {
    pub key: MessageEventKey,
    pub pending: PendingMediaRetry,
}

pub struct PendingEntryView {
    pub key: EventKeyView,
    pub pending: PendingMediaRetryView,
}

impl View for MediaRetryPendingEntry {
    type V = PendingEntryView;

    open spec fn view(&self) -> PendingEntryView {
        PendingEntryView { key: self.key@, pending: self.pending@ }
    }
}

impl MediaRetryPendingEntry {
    pub fn new(key: MessageEventKey, pending: PendingMediaRetry) -> (e: Self)
        ensures
            e@ == (PendingEntryView { key: key@, pending: pending@ }),
    {
        MediaRetryPendingEntry { key, pending }
    }
}

/// A retry key names a chat and a message.
pub open spec fn retry_key_valid(k: EventKeyView) -> bool {
    k.remote_jid.len() > 0 && k.id.len() > 0
}

/// Pending media carries a full media key and both digests, and a fallback
/// host, when given, is not empty.
pub open spec fn pending_valid(p: PendingMediaRetryView) -> bool {
    &&& p.media.media_key.len() == 32
    &&& p.media.file_sha256.len() == 32
    &&& p.media.file_enc_sha256.len() == 32
    &&& (p.fallback_host matches Some(h) ==> h.len() > 0)
}

/// Why pending media is refused: the first missing part.
pub open spec fn pending_fault_text(p: PendingMediaRetryView) -> Seq<char> {
    if p.media.media_key.len() != 32 {
        "pending media retry key must be 32 bytes, got "@ + crate::text::decimal_chars(p.media.media_key.len())
    } else if p.media.file_sha256.len() != 32 {
        "pending media retry plaintext SHA-256 must be 32 bytes, got "@ + crate::text::decimal_chars(
            p.media.file_sha256.len(),
        )
    } else if p.media.file_enc_sha256.len() != 32 {
        "pending media retry encrypted SHA-256 must be 32 bytes, got "@ + crate::text::decimal_chars(
            p.media.file_enc_sha256.len(),
        )
    } else {
        "pending media retry fallback host must not be empty"@
    }
}

/// Why a retry key is unusable.
pub open spec fn retry_key_fault(k: EventKeyView) -> Seq<char> {
    if k.remote_jid.len() == 0 {
        "media retry key remote JID must not be empty"@
    } else {
        "media retry key id must not be empty"@
    }
}

/// Why a pending retry entry cannot be registered: its key first, then its
/// media.
pub open spec fn retry_entry_fault(k: EventKeyView, p: PendingMediaRetryView) -> Seq<char> {
    if !retry_key_valid(k) {
        retry_key_fault(k)
    } else {
        pending_fault_text(p)
    }
}

pub fn validate_media_retry_key(key: &MessageEventKey) -> (r: CoreResult<()>)
    ensures
        match r {
            Ok(_) => retry_key_valid(key@),
            Err(e) => !retry_key_valid(key@) && (e matches CoreError::Payload(m) && m@ == retry_key_fault(key@)),
        },
{
    if key.remote_jid.as_str().is_empty() {
        return Err(crate::error::payload("media retry key remote JID must not be empty"));
    }
    if key.id.as_str().is_empty() {
        return Err(crate::error::payload("media retry key id must not be empty"));
    }
    Ok(())
}

fn length_error(prefix: &str, len: usize) -> (e: CoreError)
    ensures
        e matches CoreError::Payload(m) && m@ == prefix@ + crate::text::decimal_chars(len as nat),
{
    let n = crate::text::u64_to_string(len as u64);
    CoreError::Payload(concat2(prefix, n.as_str()))
}

pub fn validate_pending_media_retry(pending: &PendingMediaRetry) -> (r: CoreResult<()>)
    ensures
        match r {
            Ok(_) => pending_valid(pending@),
            Err(e) => !pending_valid(pending@) && (e matches CoreError::Payload(m) && m@ == pending_fault_text(pending@)),
        },
{
    if pending.media.media_key.len() != 32 {
        return Err(
            length_error(
                "pending media retry key must be 32 bytes, got ",
                pending.media.media_key.len(),
            ),
        );
    }
    if pending.media.file_sha256.len() != 32 {
        return Err(
            length_error(
                "pending media retry plaintext SHA-256 must be 32 bytes, got ",
                pending.media.file_sha256.len(),
            ),
        );
    }
    if pending.media.file_enc_sha256.len() != 32 {
        return Err(
            length_error(
                "pending media retry encrypted SHA-256 must be 32 bytes, got ",
                pending.media.file_enc_sha256.len(),
            ),
        );
    }
    if let Some(h) = &pending.fallback_host {
        if h.as_str().is_empty() {
            return Err(crate::error::payload("pending media retry fallback host must not be empty"));
        }
    }
    Ok(())
}

/// The store key of a message: chat JID, message id and participant (empty
/// when absent), separated by `|`.
pub open spec fn event_store_key(k: EventKeyView) -> Seq<char> {
    k.remote_jid + "|"@ + k.id + "|"@ + match k.participant {
        Some(p) => p,
        None => Seq::empty(),
    }
}

/// The key under which pending media for a message is stored.
pub fn pending_media_retry_store_key(key: &MessageEventKey) -> (s: String)
    ensures
        s@ == event_store_key(key@),
{
    let head = concat3(key.remote_jid.as_str(), "|", key.id.as_str());
    let participant: &str = match &key.participant {
        Some(p) => p.as_str(),
        None => "",
    };
    proof {
        reveal_strlit("");
    }
    concat3(head.as_str(), "|", participant)
}

// ---------------------------------------------------------------------------
// Where uploaded media ended up.
// ---------------------------------------------------------------------------

/// Where the server stored an upload.
#[derive(Clone, Debug, PartialEq, Eq)]
pub struct UploadedMediaLocation {
    pub url: Option<String>,
    pub direct_path: Option<String>,
    pub media_key_timestamp: Option<i64>,
    pub upload_id: Option<String>,
    pub upload_token: Option<String>,
}

impl UploadedMediaLocation {
    /// A location with nothing known yet.
    pub fn new() -> (l: Self)
        ensures
            l.url.is_none(),
            l.direct_path.is_none(),
            l.media_key_timestamp.is_none(),
            l.upload_id.is_none(),
            l.upload_token.is_none(),
    {
        UploadedMediaLocation {
            url: None,
            direct_path: None,
            media_key_timestamp: None,
            upload_id: None,
            upload_token: None,
        }
    }

    /// This location with its URL set.
    pub fn with_url(self, url: &str) -> (l: Self)
        ensures
            opt_view(l.url) == Some(url@),
            l.direct_path == self.direct_path,
            l.media_key_timestamp == self.media_key_timestamp,
            l.upload_id == self.upload_id,
            l.upload_token == self.upload_token,
    {
        UploadedMediaLocation { url: Some(owned(url)), ..self }
    }

    /// This location with its direct path set.
    pub fn with_direct_path(self, direct_path: &str) -> (l: Self)
        ensures
            l.url == self.url,
            opt_view(l.direct_path) == Some(direct_path@),
            l.media_key_timestamp == self.media_key_timestamp,
            l.upload_id == self.upload_id,
            l.upload_token == self.upload_token,
    {
        UploadedMediaLocation { direct_path: Some(owned(direct_path)), ..self }
    }

    /// This location with its media key timestamp set.
    pub fn with_media_key_timestamp(self, timestamp: i64) -> (l: Self)
        ensures
            l.url == self.url,
            l.direct_path == self.direct_path,
            l.media_key_timestamp == Some(timestamp),
            l.upload_id == self.upload_id,
            l.upload_token == self.upload_token,
    {
        UploadedMediaLocation { media_key_timestamp: Some(timestamp), ..self }
    }

    /// This location with its upload id set.
    pub fn with_upload_id(self, upload_id: &str) -> (l: Self)
        ensures
            l.url == self.url,
            l.direct_path == self.direct_path,
            l.media_key_timestamp == self.media_key_timestamp,
            opt_view(l.upload_id) == Some(upload_id@),
            l.upload_token == self.upload_token,
    {
        UploadedMediaLocation { upload_id: Some(owned(upload_id)), ..self }
    }

    /// This location with its upload token set.
    pub fn with_upload_token(self, upload_token: &str) -> (l: Self)
        ensures
            l.url == self.url,
            l.direct_path == self.direct_path,
            l.media_key_timestamp == self.media_key_timestamp,
            l.upload_id == self.upload_id,
            opt_view(l.upload_token) == Some(upload_token@),
    {
        UploadedMediaLocation { upload_token: Some(owned(upload_token)), ..self }
    }
}

impl Default for UploadedMediaLocation {
    fn default() -> (l: Self)
        ensures
            l.url.is_none(),
            l.direct_path.is_none(),
            l.media_key_timestamp.is_none(),
            l.upload_id.is_none(),
            l.upload_token.is_none(),
    {
        Self::new()
    }
}

/// Text that is present and not empty.
pub open spec fn present(o: Option<Seq<char>>) -> bool {
    o matches Some(s) && s.len() > 0
}

fn opt_present(o: Option<&str>) -> (r: Option<String>)
    ensures
        opt_view(r) == match o {
            Some(s) => if s@.len() > 0 {
                Some(s@)
            } else {
                None
            },
            None => None,
        },
{
    match o {
        Some(s) => if s.is_empty() {
            None
        } else {
            Some(owned(s))
        },
        None => None,
    }
}

pub open spec fn non_empty_opt(o: Option<Seq<char>>) -> Option<Seq<char>> {
    match o {
        Some(s) => if s.len() > 0 {
            Some(s)
        } else {
            None
        },
        None => None,
    }
}

pub open spec fn str_opt(o: Option<&str>) -> Option<Seq<char>> {
    match o {
        Some(s) => Some(s@),
        None => None,
    }
}

/// The location an upload response describes, from its `url`,
/// `direct_path`, `ts`, `fbid` and `meta_hmac` fields; empty texts count as
/// absent, and a response with neither URL nor direct path is refused.
pub fn uploaded_media_location_from_fields(
    url: Option<&str>,
    direct_path: Option<&str>,
    timestamp: Option<i64>,
    upload_id: Option<&str>,
    upload_token: Option<&str>,
) -> (r: CoreResult<UploadedMediaLocation>)
    ensures
        match r {
            Ok(l) => {
                &&& present(str_opt(url)) || present(str_opt(direct_path))
                &&& opt_view(l.url) == non_empty_opt(str_opt(url))
                &&& opt_view(l.direct_path) == non_empty_opt(str_opt(direct_path))
                &&& l.media_key_timestamp == timestamp
                &&& opt_view(l.upload_id) == non_empty_opt(str_opt(upload_id))
                &&& opt_view(l.upload_token) == non_empty_opt(str_opt(upload_token))
            },
            Err(e) => !present(str_opt(url)) && !present(str_opt(direct_path)) && (e matches CoreError::Protocol(m) && m@
                == "media upload response missing URL and direct path"@),
        },
{
    let location = UploadedMediaLocation {
        url: opt_present(url),
        direct_path: opt_present(direct_path),
        media_key_timestamp: timestamp,
        upload_id: opt_present(upload_id),
        upload_token: opt_present(upload_token),
    };
    if location.url.is_none() && location.direct_path.is_none() {
        return Err(crate::error::protocol("media upload response missing URL and direct path"));
    }
    Ok(location)
}


/// The text of a JSON member that is a string.
pub open spec fn json_text(v: Option<JsonValue>) -> Option<Seq<char>> {
    match v {
        Some(JsonValue::Text(t)) => Some(t@),
        _ => None,
    }
}

/// The value of a JSON member that is an integer in `i64` range.
pub open spec fn json_i64(v: Option<JsonValue>) -> Option<i64> {
    match v {
        Some(JsonValue::Number(t)) => crate::text::i64_of(t@),
        _ => None,
    }
}

/// An identifier given as a JSON string or integer, as text.
pub open spec fn json_id_text(v: Option<JsonValue>) -> Option<Seq<char>> {
    match v {
        Some(JsonValue::Text(t)) => Some(t@),
        Some(JsonValue::Number(t)) => match crate::text::i64_of(t@) {
            Some(n) => Some(crate::text::signed_decimal(n as int)),
            None => match crate::inbound::u64_of(t@) {
                Some(n) => Some(crate::text::decimal_chars(n as nat)),
                None => None,
            },
        },
        _ => None,
    }
}

fn json_text_exec<'a>(v: Option<&'a JsonValue>) -> (r: Option<&'a str>)
    ensures
        str_opt(r) == json_text(match v {
            Some(x) => Some(*x),
            None => None,
        }),
{
    match v {
        Some(JsonValue::Text(t)) => Some(t.as_str()),
        _ => None,
    }
}

/// An identifier given as a JSON string or integer, as text.
fn json_string_or_number(v: Option<&JsonValue>) -> (r: Option<String>)
    ensures
        opt_view(r) == json_id_text(match v {
            Some(x) => Some(*x),
            None => None,
        }),
{
    match v {
        Some(JsonValue::Text(t)) => Some(owned(t.as_str())),
        Some(JsonValue::Number(t)) => match crate::text::parse_i64(t.as_str()) {
            Some(n) => Some(crate::text::i64_to_string(n)),
            None => match crate::text::parse_u64(t.as_str()) {
                Some(n) => Some(crate::text::u64_to_string(n)),
                None => None,
            },
        },
        _ => None,
    }
}

/// Whether an upload response document names a URL or a direct path.
pub open spec fn response_has_location(document: JsonValue) -> bool {
    present(json_text(document.field("url"@))) || present(json_text(document.field("direct_path"@)))
}

/// Whether `l` is the location an upload response document describes.
pub open spec fn location_of_response(document: JsonValue, l: UploadedMediaLocation) -> bool {
    &&& opt_view(l.url) == non_empty_opt(json_text(document.field("url"@)))
    &&& opt_view(l.direct_path) == non_empty_opt(json_text(document.field("direct_path"@)))
    &&& l.media_key_timestamp == json_i64(document.field("ts"@))
    &&& opt_view(l.upload_id) == non_empty_opt(json_id_text(document.field("fbid"@)))
    &&& opt_view(l.upload_token) == non_empty_opt(json_text(document.field("meta_hmac"@)))
}

/// The location a media upload response (its JSON document) describes:
/// `url`, `direct_path`, `ts`, `fbid` (string or integer) and `meta_hmac`;
/// empty texts count as absent, and a response with neither URL nor direct
/// path is refused.
pub fn uploaded_media_location_from_response(document: &JsonValue) -> (r: CoreResult<UploadedMediaLocation>)
    ensures
        match r {
            Ok(l) => response_has_location(*document) && location_of_response(*document, l),
            Err(e) => !response_has_location(*document) && (e matches CoreError::Protocol(m) && m@
                == "media upload response missing URL and direct path"@),
        },
{
    let url = json_text_exec(json_field(document, "url"));
    let direct_path = json_text_exec(json_field(document, "direct_path"));
    let timestamp: Option<i64> = match json_field(document, "ts") {
        Some(JsonValue::Number(t)) => crate::text::parse_i64(t.as_str()),
        _ => None,
    };
    let upload_id = json_string_or_number(json_field(document, "fbid"));
    let upload_id_str: Option<&str> = match &upload_id {
        Some(s) => Some(s.as_str()),
        None => None,
    };
    let upload_token = json_text_exec(json_field(document, "meta_hmac"));
    uploaded_media_location_from_fields(url, direct_path, timestamp, upload_id_str, upload_token)
}

/// Uploaded media from the key and digests of its encryption and the
/// location the server stored it at; refused when the location has neither
/// a URL nor a direct path.
pub fn uploaded_media_from_metadata(
    media_key: &[u8],
    file_sha256: &[u8],
    file_enc_sha256: &[u8],
    file_length: u64,
    location: UploadedMediaLocation,
) -> (r: CoreResult<UploadedMedia>)
    ensures
        match r {
            Ok(m) => {
                &&& present(opt_view(location.url)) || present(opt_view(location.direct_path))
                &&& m@ == (UploadedMediaView {
                    url: opt_view(location.url),
                    direct_path: opt_view(location.direct_path),
                    media_key: media_key@,
                    file_sha256: file_sha256@,
                    file_enc_sha256: file_enc_sha256@,
                    file_length,
                    media_key_timestamp: location.media_key_timestamp,
                })
            },
            Err(e) => !present(opt_view(location.url)) && !present(opt_view(location.direct_path)) && (
            e matches CoreError::Payload(m) && m@ == "uploaded media location requires a URL or direct path"@),
        },
{
    let has_url = match &location.url {
        Some(u) => !u.as_str().is_empty(),
        None => false,
    };
    let has_path = match &location.direct_path {
        Some(p) => !p.as_str().is_empty(),
        None => false,
    };
    if !has_url && !has_path {
        return Err(crate::error::payload("uploaded media location requires a URL or direct path"));
    }
    Ok(
        UploadedMedia {
            url: location.url,
            direct_path: location.direct_path,
            media_key: crate::text::copy_bytes(media_key),
            file_sha256: crate::text::copy_bytes(file_sha256),
            file_enc_sha256: crate::text::copy_bytes(file_enc_sha256),
            file_length,
            media_key_timestamp: location.media_key_timestamp,
        },
    )
}


/// Checks that a byte field has the expected length.
pub fn validate_media_bytes_len(label: &str, bytes: &[u8], expected: usize) -> (r: CoreResult<()>)
    ensures
        match r {
            Ok(_) => bytes@.len() == expected,
            Err(e) => bytes@.len() != expected && (e matches CoreError::Payload(m) && m@ == label@
                + " must be "@ + crate::text::decimal_chars(expected as nat) + " bytes, got "@
                + crate::text::decimal_chars(bytes@.len())),
        },
{
    if bytes.len() != expected {
        let e = crate::text::u64_to_string(expected as u64);
        let g = crate::text::u64_to_string(bytes.len() as u64);
        let m1 = concat3(label, " must be ", e.as_str());
        let m2 = concat3(m1.as_str(), " bytes, got ", g.as_str());
        return Err(CoreError::Payload(m2));
    }
    Ok(())
}

/// When uploaded media can serve as a link preview thumbnail: it has a
/// non-empty direct path, 32-byte key and digests, and dimensions, if
/// given, are positive.
pub open spec fn link_thumbnail_ok(m: UploadedMediaView, dimensions: Option<(u32, u32)>) -> bool {
    &&& present(m.direct_path)
    &&& m.media_key.len() == 32
    &&& m.file_sha256.len() == 32
    &&& m.file_enc_sha256.len() == 32
    &&& !(dimensions matches Some((w, h)) && (w == 0 || h == 0))
}

/// The text of the error for a byte field of the wrong length.
pub open spec fn bytes_len_fault(label: Seq<char>, len: nat, expected: nat) -> Seq<char> {
    label + " must be "@ + crate::text::decimal_chars(expected) + " bytes, got "@ + crate::text::decimal_chars(len)
}

/// The text of the error for uploaded media that cannot serve as a link
/// preview thumbnail: the first rule of `link_thumbnail_ok` that it breaks.
pub open spec fn link_thumbnail_fault(m: UploadedMediaView) -> Seq<char> {
    if m.direct_path.is_none() {
        "link preview thumbnail upload requires a direct path"@
    } else if m.direct_path.unwrap().len() == 0 {
        "link preview thumbnail direct path must not be empty"@
    } else if m.media_key.len() != 32 {
        bytes_len_fault("link preview thumbnail media key"@, m.media_key.len(), 32)
    } else if m.file_sha256.len() != 32 {
        bytes_len_fault("link preview thumbnail plaintext SHA-256"@, m.file_sha256.len(), 32)
    } else if m.file_enc_sha256.len() != 32 {
        bytes_len_fault("link preview thumbnail encrypted SHA-256"@, m.file_enc_sha256.len(), 32)
    } else {
        "link preview thumbnail dimensions must be greater than zero"@
    }
}

/// The link preview thumbnail that uploaded media describes.
pub fn link_preview_thumbnail_from_uploaded_media(
    media: &UploadedMedia,
    dimensions: Option<(u32, u32)>,
) -> (r: CoreResult<crate::message::LinkPreviewThumbnail>)
    ensures
        match r {
            Ok(t) => {
                &&& link_thumbnail_ok(media@, dimensions)
                &&& Some(t.direct_path@) == media@.direct_path
                &&& t.media_key@ == media@.media_key
                &&& t.sha256@ == media@.file_sha256
                &&& t.enc_sha256@ == media@.file_enc_sha256
                &&& t.media_key_timestamp == media@.media_key_timestamp
                &&& t.width == match dimensions {
                    Some((w, _)) => Some(w),
                    None => None,
                }
                &&& t.height == match dimensions {
                    Some((_, h)) => Some(h),
                    None => None,
                }
            },
            Err(e) => !link_thumbnail_ok(media@, dimensions) && (e matches CoreError::Payload(m) && m@
                == link_thumbnail_fault(media@)),
        },
{
    let direct_path: &str = match &media.direct_path {
        Some(p) => p.as_str(),
        None => {
            return Err(crate::error::payload("link preview thumbnail upload requires a direct path"));
        },
    };
    if direct_path.is_empty() {
        return Err(crate::error::payload("link preview thumbnail direct path must not be empty"));
    }
    validate_media_bytes_len("link preview thumbnail media key", media.media_key.as_slice(), 32)?;
    validate_media_bytes_len(
        "link preview thumbnail plaintext SHA-256",
        media.file_sha256.as_slice(),
        32,
    )?;
    validate_media_bytes_len(
        "link preview thumbnail encrypted SHA-256",
        media.file_enc_sha256.as_slice(),
        32,
    )?;
    let mut thumbnail = crate::message::LinkPreviewThumbnail::new(
        direct_path,
        crate::text::copy_bytes(media.media_key.as_slice()),
        crate::text::copy_bytes(media.file_sha256.as_slice()),
        crate::text::copy_bytes(media.file_enc_sha256.as_slice()),
    );
    if let Some(timestamp) = media.media_key_timestamp {
        thumbnail = thumbnail.with_media_key_timestamp(timestamp);
    }
    if let Some((width, height)) = dimensions {
        if width == 0 || height == 0 {
            return Err(crate::error::payload("link preview thumbnail dimensions must be greater than zero"));
        }
        thumbnail = thumbnail.with_dimensions(width, height);
    }
    Ok(thumbnail)
}

/// The remote thumbnail that an encrypted upload with the given digests
/// describes, stored at the location's direct path.
pub fn remote_thumbnail_from_encrypted(
    file_sha256: &[u8],
    file_enc_sha256: &[u8],
    location: UploadedMediaLocation,
    dimensions: Option<(u32, u32)>,
) -> (r: CoreResult<crate::message::RemoteMediaThumbnail>)
    ensures
        match r {
            Ok(t) => {
                &&& present(opt_view(location.direct_path))
                &&& !(dimensions matches Some((w, h)) && (w == 0 || h == 0))
                &&& Some(t.direct_path@) == opt_view(location.direct_path)
                &&& t.sha256@ == file_sha256@
                &&& t.enc_sha256@ == file_enc_sha256@
                &&& t.width == match dimensions {
                    Some((w, _)) => Some(w),
                    None => None,
                }
                &&& t.height == match dimensions {
                    Some((_, h)) => Some(h),
                    None => None,
                }
            },
            Err(e) => (!present(opt_view(location.direct_path)) || (dimensions matches Some((w, h)) && (w
                == 0 || h == 0))) && (e matches CoreError::Payload(m) && m@ == if !present(
                opt_view(location.direct_path),
            ) {
                "remote thumbnail upload requires a direct path"@
            } else {
                "remote thumbnail dimensions must be greater than zero"@
            }),
        },
{
    let direct_path: String = match location.direct_path {
        Some(p) => {
            if p.as_str().is_empty() {
                return Err(crate::error::payload("remote thumbnail upload requires a direct path"));
            }
            p
        },
        None => {
            return Err(crate::error::payload("remote thumbnail upload requires a direct path"));
        },
    };
    validate_remote_thumbnail_dimensions(dimensions)?;
    let mut thumbnail = crate::message::RemoteMediaThumbnail::new(
        direct_path.as_str(),
        crate::text::copy_bytes(file_sha256),
        crate::text::copy_bytes(file_enc_sha256),
    );
    if let Some((width, height)) = dimensions {
        thumbnail = thumbnail.with_dimensions(width, height);
    }
    Ok(thumbnail)
}

// ---------------------------------------------------------------------------
// Limits and checks.
// ---------------------------------------------------------------------------

/// Size limits of uploads and downloads.
#[derive(Clone, Copy, Debug, PartialEq, Eq)]
pub struct MediaTransferConfig {
    pub max_upload_plaintext_bytes: usize,
    pub max_download_ciphertext_bytes: usize,
}

impl Default for MediaTransferConfig {
    fn default() -> (c: Self)
        ensures
            c.max_upload_plaintext_bytes == 104_857_600,
            c.max_download_ciphertext_bytes == 134_217_728,
    {
        MediaTransferConfig {
            max_upload_plaintext_bytes: 104_857_600,
            max_download_ciphertext_bytes: 134_217_728,
        }
    }
}

/// Uploads and downloads through a transport, within size limits.
#[derive(Clone, Debug)]
pub struct MediaTransfer<T> {
    pub transport: T,
    pub config: MediaTransferConfig,
}

impl<T> MediaTransfer<T> {
    /// A transfer with the default limits.
    pub fn new(transport: T) -> (t: Self)
        ensures
            t.transport == transport,
            t.config.max_upload_plaintext_bytes == 104_857_600,
            t.config.max_download_ciphertext_bytes == 134_217_728,
    {
        MediaTransfer { transport, config: MediaTransferConfig::default() }
    }

    /// A transfer with the given limits.
    pub fn with_config(transport: T, config: MediaTransferConfig) -> (t: Self)
        ensures
            t.transport == transport,
            t.config == config,
    {
        MediaTransfer { transport, config }
    }

    /// The transport.
    pub fn transport(&self) -> (t: &T)
        ensures
            *t == self.transport,
    {
        &self.transport
    }

    /// The limits.
    pub fn config(&self) -> (c: MediaTransferConfig)
        ensures
            c == self.config,
    {
        self.config
    }
}

/// The text of the error for a length over a limit, or for a limit of zero.
pub open spec fn limit_fault(label: Seq<char>, len: nat, max: nat) -> Seq<char> {
    if max == 0 {
        label + " size limit must be greater than zero"@
    } else {
        label + " exceeds configured limit: "@ + crate::text::decimal_chars(len) + " bytes exceeds "@
            + crate::text::decimal_chars(max)
    }
}

/// The length of the encryption of `n` bytes of media: padded to the next
/// block of 16 bytes (a full block when `n` is a multiple of 16), and a
/// 10-byte MAC.
pub open spec fn encrypted_len(n: nat) -> nat {
    n + (16 - n % 16) as nat + 10
}

/// Why a file of `file_len` bytes cannot be encrypted for upload under the
/// limits, in the order the rules are checked, or the length its
/// encryption will have.
pub open spec fn encryption_plan(label: Seq<char>, is_file: bool, file_len: u64, max_plaintext: usize, max_ciphertext: usize) -> Result<
    nat,
    Seq<char>,
> {
    if max_plaintext == 0 {
        Err(limit_fault(label, 0, 0))
    } else if max_ciphertext == 0 {
        Err(limit_fault("encrypted media upload"@, 0, 0))
    } else if !is_file {
        Err(label + " path is not a regular file"@)
    } else if file_len > usize::MAX {
        Err(label + " is too large for this platform: "@ + crate::text::decimal_chars(file_len as nat) + " bytes"@)
    } else if file_len > max_plaintext {
        Err(limit_fault(label, file_len as nat, max_plaintext as nat))
    } else if encrypted_len(file_len as nat) > usize::MAX {
        Err(label + " encrypted length overflow"@)
    } else if encrypted_len(file_len as nat) > max_ciphertext {
        Err(limit_fault("encrypted media upload"@, encrypted_len(file_len as nat), max_ciphertext as nat))
    } else {
        Ok(encrypted_len(file_len as nat))
    }
}

fn u64_to_usize(n: u64) -> (r: Option<usize>)
    ensures
        match r {
            Some(v) => n <= usize::MAX && v == n,
            None => n > usize::MAX,
        },
{
    if n <= usize::MAX as u64 {
        Some(n as usize)
    } else {
        None
    }
}

/// Checks a file against the limits before it is encrypted for upload, and
/// gives the length its encryption will have.
pub fn plan_media_encryption(
    label: &str,
    is_file: bool,
    file_len: u64,
    max_plaintext_bytes: usize,
    max_ciphertext_bytes: usize,
) -> (r: CoreResult<usize>)
    ensures
        match r {
            Ok(n) => encryption_plan(label@, is_file, file_len, max_plaintext_bytes, max_ciphertext_bytes) == Ok::<
                nat,
                Seq<char>,
            >(n as nat),
            Err(e) => e is Payload && encryption_plan(label@, is_file, file_len, max_plaintext_bytes, max_ciphertext_bytes)
                == Err::<nat, Seq<char>>(e.detail()),
        },
{
    match validate_media_transfer_limit(label, 0, max_plaintext_bytes) {
        Ok(_) => {},
        Err(e) => return Err(e),
    }
    match validate_media_transfer_limit("encrypted media upload", 0, max_ciphertext_bytes) {
        Ok(_) => {},
        Err(e) => return Err(e),
    }
    if !is_file {
        return Err(CoreError::Payload(concat2(label, " path is not a regular file")));
    }
    let len = match u64_to_usize(file_len) {
        Some(n) => n,
        None => {
            let n = crate::text::u64_to_string(file_len);
            let a = concat3(label, " is too large for this platform: ", n.as_str());
            return Err(CoreError::Payload(concat2(a.as_str(), " bytes")));
        },
    };
    match validate_media_transfer_limit(label, len, max_plaintext_bytes) {
        Ok(_) => {},
        Err(e) => return Err(e),
    }
    let padded = match len.checked_add(16 - len % 16) {
        Some(p) => p.checked_add(10),
        None => None,
    };
    let padded = match padded {
        Some(p) => p,
        None => return Err(CoreError::Payload(concat2(label, " encrypted length overflow"))),
    };
    match validate_media_transfer_limit("encrypted media upload", padded, max_ciphertext_bytes) {
        Ok(_) => {},
        Err(e) => return Err(e),
    }
    Ok(padded)
}

/// A sum that stops at `usize::MAX`.
pub open spec fn saturated_sum(a: usize, b: usize) -> nat {
    if a + b > usize::MAX {
        usize::MAX as nat
    } else {
        (a + b) as nat
    }
}

/// The bytes written after an encrypted chunk of `chunk_len` bytes follows
/// `written` (the sum stops at `usize::MAX`), or the refusal when that
/// passes the limit: while encrypting, or (for the final chunk) while
/// finalizing.
pub fn encrypted_chunk_written(written: usize, chunk_len: usize, max_ciphertext_bytes: usize, finalizing: bool) -> (r:
    CoreResult<usize>)
    ensures
        match r {
            Ok(n) => saturated_sum(written, chunk_len) <= max_ciphertext_bytes && n == saturated_sum(written, chunk_len),
            Err(e) => e is Payload && saturated_sum(written, chunk_len) > max_ciphertext_bytes && e.detail()
                == "encrypted media upload exceeds configured limit while "@ + (if finalizing {
                "finalizing"@
            } else {
                "encrypting"@
            }) + ": "@ + crate::text::decimal_chars(saturated_sum(written, chunk_len)) + " bytes exceeds "@
                + crate::text::decimal_chars(max_ciphertext_bytes as nat),
        },
{
    let total = written.saturating_add(chunk_len);
    if total > max_ciphertext_bytes {
        let stage = if finalizing {
            "finalizing"
        } else {
            "encrypting"
        };
        let a = concat3("encrypted media upload exceeds configured limit while ", stage, ": ");
        let n = crate::text::u64_to_string(total as u64);
        let m = crate::text::u64_to_string(max_ciphertext_bytes as u64);
        let b = concat3(a.as_str(), n.as_str(), " bytes exceeds ");
        return Err(CoreError::Payload(concat2(b.as_str(), m.as_str())));
    }
    Ok(total)
}

/// Refuses a size of zero as limit and a length over the limit.
pub fn validate_media_transfer_limit(label: &str, len: usize, max: usize) -> (r: CoreResult<()>)
    ensures
        match r {
            Ok(_) => max > 0 && len <= max,
            Err(e) => e matches CoreError::Payload(m) && if max == 0 {
                m@ == label@ + " size limit must be greater than zero"@
            } else {
                len > max && m@ == label@ + " exceeds configured limit: "@ + crate::text::decimal_chars(
                    len as nat,
                ) + " bytes exceeds "@ + crate::text::decimal_chars(max as nat)
            },
        },
{
    if max == 0 {
        return Err(CoreError::Payload(concat2(label, " size limit must be greater than zero")));
    }
    if len > max {
        let l = crate::text::u64_to_string(len as u64);
        let m = crate::text::u64_to_string(max as u64);
        let a = concat3(label, " exceeds configured limit: ", l.as_str());
        let b = concat3(a.as_str(), " bytes exceeds ", m.as_str());
        return Err(CoreError::Payload(b));
    }
    Ok(())
}

/// Whether a chunk read from a file may be kept: `received` bytes so far
/// and `chunk_len` more (the sum capped at `usize::MAX`) must not exceed
/// `max_bytes`.
pub fn check_file_read_chunk(received: usize, chunk_len: usize, max_bytes: usize, label: &str) -> (r: CoreResult<()>)
    ensures
        match r {
            Ok(_) => link_preview::saturating_sum(received, chunk_len) <= max_bytes,
            Err(e) => link_preview::saturating_sum(received, chunk_len) > max_bytes && (e matches CoreError::Payload(m)
                && m@ == label@ + " exceeds configured limit while reading: "@ + crate::text::decimal_chars(
                link_preview::saturating_sum(received, chunk_len) as nat,
            ) + " bytes exceeds "@ + crate::text::decimal_chars(max_bytes as nat)),
        },
{
    let total: usize = if received > usize::MAX - chunk_len {
        usize::MAX
    } else {
        received + chunk_len
    };
    if total > max_bytes {
        let t = crate::text::u64_to_string(total as u64);
        let m = crate::text::u64_to_string(max_bytes as u64);
        let a = concat3(label, " exceeds configured limit while reading: ", t.as_str());
        let b = concat3(a.as_str(), " bytes exceeds ", m.as_str());
        return Err(CoreError::Payload(b));
    }
    Ok(())
}

/// When a thumbnail can be uploaded for parent media: the parent has a full
/// media key, the thumbnail is not empty and its dimensions, if given, are
/// positive.
pub open spec fn remote_thumbnail_upload_ok(parent_key: Seq<u8>, jpeg: Seq<u8>, dimensions: Option<(u32, u32)>) -> bool {
    &&& parent_key.len() == 32
    &&& jpeg.len() > 0
    &&& !(dimensions matches Some((w, h)) && (w == 0 || h == 0))
}

/// Refuses a thumbnail upload for parent media without a full media key, an
/// empty thumbnail, or zero dimensions.
pub fn validate_remote_thumbnail_upload(
    parent_media: &UploadedMedia,
    jpeg_thumbnail: &[u8],
    dimensions: Option<(u32, u32)>,
) -> (r: CoreResult<()>)
    ensures
        match r {
            Ok(_) => remote_thumbnail_upload_ok(parent_media@.media_key, jpeg_thumbnail@, dimensions),
            Err(e) => !remote_thumbnail_upload_ok(parent_media@.media_key, jpeg_thumbnail@, dimensions) && (
            e matches CoreError::Payload(m) && m@ == if parent_media@.media_key.len() != 32 {
                bytes_len_fault("remote thumbnail parent media key"@, parent_media@.media_key.len(), 32)
            } else if jpeg_thumbnail@.len() == 0 {
                "remote thumbnail upload must not be empty"@
            } else {
                "remote thumbnail dimensions must be greater than zero"@
            }),
        },
{
    validate_media_bytes_len("remote thumbnail parent media key", parent_media.media_key.as_slice(), 32)?;
    if jpeg_thumbnail.len() == 0 {
        return Err(crate::error::payload("remote thumbnail upload must not be empty"));
    }
    validate_remote_thumbnail_dimensions(dimensions)
}

/// Refuses zero thumbnail dimensions.
pub fn validate_remote_thumbnail_dimensions(dimensions: Option<(u32, u32)>) -> (r: CoreResult<()>)
    ensures
        match r {
            Ok(_) => !(dimensions matches Some((w, h)) && (w == 0 || h == 0)),
            Err(e) => (dimensions matches Some((w, h)) && (w == 0 || h == 0)) && (e matches CoreError::Payload(m)
                && m@ == "remote thumbnail dimensions must be greater than zero"@),
        },
{
    if let Some((w, h)) = dimensions {
        if w == 0 || h == 0 {
            return Err(crate::error::payload("remote thumbnail dimensions must be greater than zero"));
        }
    }
    Ok(())
}

/// Refuses an empty link preview thumbnail.
pub fn validate_link_preview_thumbnail_plaintext(jpeg_thumbnail: &[u8]) -> (r: CoreResult<()>)
    ensures
        match r {
            Ok(_) => jpeg_thumbnail@.len() > 0,
            Err(e) => jpeg_thumbnail@.len() == 0 && (e matches CoreError::Payload(m) && m@
                == "link preview thumbnail upload must not be empty"@),
        },
{
    if jpeg_thumbnail.len() == 0 {
        return Err(crate::error::payload("link preview thumbnail upload must not be empty"));
    }
    Ok(())
}

/// The plaintext bytes counted after a decrypted piece of `piece_len`
/// bytes follows `written`, or the refusal when the count would pass
/// `u64::MAX`.
pub fn downloaded_bytes_after(written: u64, piece_len: usize) -> (r: CoreResult<u64>)
    ensures
        match r {
            Ok(n) => n == written + piece_len,
            Err(e) => written + piece_len > u64::MAX && e is Payload && e.detail()
                == "downloaded media byte count overflow"@,
        },
{
    let piece = piece_len as u64;
    if written > u64::MAX - piece {
        return Err(crate::error::payload("downloaded media byte count overflow"));
    }
    Ok(written + piece)
}

/// Compares the digests computed over a decrypted download with those the
/// media declares: the digest of the encrypted bytes first, then that of
/// the plaintext.
pub fn check_download_digests(
    actual_enc_sha256: &[u8],
    expected_enc_sha256: &[u8],
    actual_sha256: &[u8],
    expected_sha256: &[u8],
) -> (r: CoreResult<()>)
    ensures
        match r {
            Ok(_) => actual_enc_sha256@ == expected_enc_sha256@ && actual_sha256@ == expected_sha256@,
            Err(e) => e is Payload && if actual_enc_sha256@ != expected_enc_sha256@ {
                e.detail() == "media encrypted SHA-256 mismatch"@
            } else {
                actual_sha256@ != expected_sha256@ && e.detail() == "media plaintext SHA-256 mismatch"@
            },
        },
{
    if !constant_time_eq(actual_enc_sha256, expected_enc_sha256) {
        return Err(crate::error::payload("media encrypted SHA-256 mismatch"));
    }
    if !constant_time_eq(actual_sha256, expected_sha256) {
        return Err(crate::error::payload("media plaintext SHA-256 mismatch"));
    }
    Ok(())
}

/// Whether two byte strings are equal, looking at every byte whatever the
/// first difference.
pub fn constant_time_eq(left: &[u8], right: &[u8]) -> (r: bool)
    ensures
        r == (left@ == right@),
{
    if left.len() != right.len() {
        return false;
    }
    let mut diff: u8 = 0;
    let mut i: usize = 0;
    while i < left.len()
        invariant
            0 <= i <= left@.len(),
            left@.len() == right@.len(),
            (diff == 0) == (forall|j: int| 0 <= j < i ==> left@[j] == right@[j]),
        decreases left@.len() - i,
    {
        let a = left[i];
        let b = right[i];
        let d = diff;
        assert(((d | (a ^ b)) == 0u8) == (d == 0u8 && a == b)) by (bit_vector);
        diff = diff | (a ^ b);
        i = i + 1;
    }
    if diff == 0 {
        assert(left@ == right@);
    }
    diff == 0
}

/// The SHA-256 digest of some bytes, as `sha2` computes it.
pub uninterp spec fn sha256(input: Seq<u8>) -> Seq<u8>;

/// The SHA-256 digest of `input` (`sha2::Sha256::digest`); a digest is 32
/// bytes long.
#[verifier::external_body]
pub(crate) fn sha256_digest(input: &[u8]) -> (d: Vec<u8>)
    ensures
        d@ == sha256(input@),
        d@.len() == 32,
{
    sha2::Sha256::digest(input).to_vec()
}

/// The text of the error for a digest check that fails: the expected digest
/// has the wrong length, or `mismatch`.
pub open spec fn digest_fault(expected_len: nat, mismatch: Seq<char>) -> Seq<char> {
    if expected_len != 32 {
        "expected media SHA-256 must be 32 bytes, got "@ + crate::text::decimal_chars(expected_len)
    } else {
        mismatch
    }
}

/// Checks that `input` has the SHA-256 digest `expected`.
pub fn verify_sha256(input: &[u8], expected: &[u8], message: &str) -> (r: CoreResult<()>)
    ensures
        match r {
            Ok(_) => expected@.len() == 32 && sha256(input@) == expected@,
            Err(e) => e matches CoreError::Payload(m) && if expected@.len() != 32 {
                m@ == "expected media SHA-256 must be 32 bytes, got "@ + crate::text::decimal_chars(expected@.len())
            } else {
                sha256(input@) != expected@ && m@ == message@
            },
        },
{
    if expected.len() != 32 {
        let n = crate::text::u64_to_string(expected.len() as u64);
        return Err(
            CoreError::Payload(concat2("expected media SHA-256 must be 32 bytes, got ", n.as_str())),
        );
    }
    let digest = sha256_digest(input);
    if !constant_time_eq(digest.as_slice(), expected) {
        return Err(CoreError::Payload(owned(message)));
    }
    Ok(())
}

/// Checks decrypted media against its plaintext digest.
pub fn verify_media_plaintext_hash(plaintext: &[u8], expected_file_sha256: &[u8]) -> (r: CoreResult<()>)
    ensures
        match r {
            Ok(_) => expected_file_sha256@.len() == 32 && sha256(plaintext@) == expected_file_sha256@,
            Err(e) => !(expected_file_sha256@.len() == 32 && sha256(plaintext@) == expected_file_sha256@)
                && (e matches CoreError::Payload(m) && m@ == digest_fault(
                expected_file_sha256@.len(),
                "media plaintext SHA-256 mismatch"@,
            )),
        },
{
    verify_sha256(plaintext, expected_file_sha256, "media plaintext SHA-256 mismatch")
}

/// Checks downloaded ciphertext against its encrypted digest.
pub fn verify_media_ciphertext_hash(ciphertext_with_mac: &[u8], expected_file_enc_sha256: &[u8]) -> (r:
    CoreResult<()>)
    ensures
        match r {
            Ok(_) => expected_file_enc_sha256@.len() == 32 && sha256(ciphertext_with_mac@)
                == expected_file_enc_sha256@,
            Err(e) => !(expected_file_enc_sha256@.len() == 32 && sha256(ciphertext_with_mac@)
                == expected_file_enc_sha256@) && (e matches CoreError::Payload(m) && m@ == digest_fault(
                expected_file_enc_sha256@.len(),
                "media encrypted SHA-256 mismatch"@,
            )),
        },
{
    verify_sha256(ciphertext_with_mac, expected_file_enc_sha256, "media encrypted SHA-256 mismatch")
}

/// Digests of checked media: a digest that was accepted is the digest of
/// the bytes, so the same bytes are always accepted again and bytes with
/// another digest never are.
pub proof fn lemma_hash_check_is_digest(a: Seq<u8>, b: Seq<u8>, expected: Seq<u8>)
    requires
        expected.len() == 32,
        sha256(a) == expected,
    ensures
        sha256(b) == expected <==> sha256(b) == sha256(a),
{
}

/// Unpadded URL-safe base64 of some bytes: unpadded standard base64 with
/// `-` in place of `+` and `_` in place of `/`.
pub open spec fn base64_url_no_pad(bytes: Seq<u8>) -> Seq<char> {
    crate::message::b64_text(bytes).map_values(
        |c: char|
            if c == '+' {
                '-'
            } else if c == '/' {
                '_'
            } else {
                c
            },
    )
}

/// `base64::engine::general_purpose::URL_SAFE_NO_PAD.encode`: RFC 4648
/// base64 with the URL-safe alphabet and no padding.
#[verifier::external_body]
fn encode_base64_url_no_pad(bytes: &[u8]) -> (s: String)
    ensures
        s@ == base64_url_no_pad(bytes@),
{
    base64::engine::general_purpose::URL_SAFE_NO_PAD.encode(bytes)
}

/// The upload token of media: the unpadded URL-safe base64 of its 32-byte
/// encrypted digest.
pub fn media_upload_token(file_enc_sha256: &[u8]) -> (r: CoreResult<String>)
    ensures
        match r {
            Ok(t) => file_enc_sha256@.len() == 32 && t@ == base64_url_no_pad(file_enc_sha256@),
            Err(e) => file_enc_sha256@.len() != 32 && (e matches CoreError::Payload(m) && m@
                == "media encrypted SHA-256 must be 32 bytes, got "@ + crate::text::decimal_chars(file_enc_sha256@.len())),
        },
{
    if file_enc_sha256.len() != 32 {
        let n = crate::text::u64_to_string(file_enc_sha256.len() as u64);
        return Err(
            CoreError::Payload(
                concat2("media encrypted SHA-256 must be 32 bytes, got ", n.as_str()),
            ),
        );
    }
    Ok(encode_base64_url_no_pad(file_enc_sha256))
}

} // verus!
