//! A bounded, expiring cache of uploads, keyed by media kind, plaintext
//! digest and length, so that the same file is not uploaded twice.

use crate::error::{CoreError, CoreResult};
use crate::media::{
    constant_time_eq, kind_id, lemma_kind_id_round_trip, media_kind_cache_id, present, sha256,
    MediaKind, DEFAULT_MEDIA_UPLOAD_CACHE_CAPACITY, DEFAULT_MEDIA_UPLOAD_CACHE_TTL_MS,
};
use crate::message::{UploadedMedia, UploadedMediaView};
use crate::recency::{evict_over, find_key, live, upsert, KeyOrder, RecencyKey, RecencyMap, RecencyValue};
use crate::text::{concat2, opt_view};
use vstd::prelude::*;

verus! {

/// Lexicographic order on byte strings.
pub open spec fn bytes_lt(a: Seq<u8>, b: Seq<u8>) -> bool
    decreases a.len(),
{
    if a.len() == 0 {
        b.len() > 0
    } else if b.len() == 0 {
        false
    } else if a[0] < b[0] {
        true
    } else if a[0] == b[0] {
        bytes_lt(a.drop_first(), b.drop_first())
    } else {
        false
    }
}

pub proof fn lemma_bytes_order(a: Seq<u8>, b: Seq<u8>, c: Seq<u8>)
    ensures
        !bytes_lt(a, a),
        bytes_lt(a, b) && bytes_lt(b, c) ==> bytes_lt(a, c),
        a == b || bytes_lt(a, b) || bytes_lt(b, a),
    decreases a.len(),
{
    if a.len() > 0 && b.len() > 0 {
        let c1 = if c.len() > 0 {
            c.drop_first()
        } else {
            a.drop_first()
        };
        lemma_bytes_order(a.drop_first(), b.drop_first(), c1);
    }
    if a.len() > 0 {
        lemma_bytes_order(a.drop_first(), a.drop_first(), a.drop_first());
    }
    if a.len() > 0 && b.len() > 0 && a[0] == b[0] && a.drop_first() == b.drop_first() {
        assert(a == seq![a[0]] + a.drop_first());
        assert(b == seq![b[0]] + b.drop_first());
    }
    if a.len() == 0 && b.len() == 0 {
        assert(a == b);
    }
}

proof fn lemma_bytes_lt_skip(a: Seq<u8>, b: Seq<u8>, i: int)
    requires
        0 <= i <= a.len(),
        i <= b.len(),
        a.take(i) == b.take(i),
    ensures
        bytes_lt(a, b) == bytes_lt(a.skip(i), b.skip(i)),
    decreases i,
{
    if i > 0 {
        assert(a[0] == a.take(i)[0]);
        assert(b[0] == b.take(i)[0]);
        assert(a.drop_first().take(i - 1) == a.take(i).drop_first());
        assert(b.drop_first().take(i - 1) == b.take(i).drop_first());
        lemma_bytes_lt_skip(a.drop_first(), b.drop_first(), i - 1);
        assert(a.drop_first().skip(i - 1) == a.skip(i));
        assert(b.drop_first().skip(i - 1) == b.skip(i));
        assert(bytes_lt(a, b) == bytes_lt(a.drop_first(), b.drop_first()));
    } else {
        assert(a.skip(0) == a && b.skip(0) == b);
    }
}

/// Compares two byte strings lexicographically.
pub fn compare_bytes(x: &[u8], y: &[u8]) -> (r: KeyOrder)
    ensures
        (r == KeyOrder::Less) == bytes_lt(x@, y@),
        (r == KeyOrder::Equal) == (x@ == y@),
        (r == KeyOrder::Greater) == bytes_lt(y@, x@),
{
    let mut i: usize = 0;
    while i < x.len() && i < y.len() && x[i] == y[i]
        invariant
            0 <= i <= x@.len(),
            i <= y@.len(),
            x@.take(i as int) == y@.take(i as int),
        decreases x@.len() - i,
    {
        assert(x@.take(i as int + 1) == x@.take(i as int).push(x@[i as int]));
        assert(y@.take(i as int + 1) == y@.take(i as int).push(y@[i as int]));
        i = i + 1;
    }
    proof {
        lemma_bytes_lt_skip(x@, y@, i as int);
        lemma_bytes_lt_skip(y@, x@, i as int);
        lemma_bytes_order(x@, y@, x@);
    }
    if i == x.len() && i == y.len() {
        assert(x@ == x@.take(i as int) && y@ == y@.take(i as int));
        KeyOrder::Equal
    } else if i == x.len() {
        assert(x@.skip(i as int).len() == 0);
        KeyOrder::Less
    } else if i == y.len() {
        assert(y@.skip(i as int).len() == 0);
        KeyOrder::Greater
    } else if x[i] < y[i] {
        assert(x@.skip(i as int)[0] == x@[i as int]);
        assert(y@.skip(i as int)[0] == y@[i as int]);
        KeyOrder::Less
    } else {
        assert(x@.skip(i as int)[0] == x@[i as int]);
        assert(y@.skip(i as int)[0] == y@[i as int]);
        KeyOrder::Greater
    }
}

/// What identifies an upload in the cache.
#[derive(Clone, Debug, PartialEq, Eq)]
pub struct MediaUploadCacheKey {
    pub kind: MediaKind,
    pub file_sha256: Vec<u8>,
    pub file_length: u64,
}

pub struct CacheKeyView {
    pub kind: MediaKind,
    pub file_sha256: Seq<u8>,
    pub file_length: u64,
}

impl View for MediaUploadCacheKey {
    type V = CacheKeyView;

    open spec fn view(&self) -> CacheKeyView {
        CacheKeyView { kind: self.kind, file_sha256: self.file_sha256@, file_length: self.file_length }
    }
}

impl MediaUploadCacheKey {
    /// A key from a media kind, a 32-byte plaintext digest and a length.
    pub fn new(kind: MediaKind, file_sha256: &[u8], file_length: u64) -> (r: CoreResult<Self>)
        ensures
            match r {
                Ok(k) => file_sha256@.len() == 32 && k@ == (CacheKeyView {
                    kind,
                    file_sha256: file_sha256@,
                    file_length,
                }),
                Err(e) => file_sha256@.len() != 32 && (e matches CoreError::Payload(m) && m@
                    == "media upload cache key SHA-256 must be 32 bytes, got "@ + crate::text::decimal_chars(
                    file_sha256@.len(),
                )),
            },
    {
        if file_sha256.len() != 32 {
            let n = crate::text::u64_to_string(file_sha256.len() as u64);
            return Err(
                CoreError::Payload(
                    concat2("media upload cache key SHA-256 must be 32 bytes, got ", n.as_str()),
                ),
            );
        }
        Ok(
            MediaUploadCacheKey {
                kind,
                file_sha256: crate::text::copy_bytes(file_sha256),
                file_length,
            },
        )
    }

    /// The key of some plaintext of the given kind.
    pub fn from_plaintext(kind: MediaKind, plaintext: &[u8]) -> (k: Self)
        ensures
            k@ == (CacheKeyView {
                kind,
                file_sha256: sha256(plaintext@),
                file_length: plaintext@.len() as u64,
            }),
    {
        let digest = crate::media::sha256_digest(plaintext);
        MediaUploadCacheKey { kind, file_sha256: digest, file_length: plaintext.len() as u64 }
    }
}

/// Cache keys are ordered by media kind byte, then digest, then length.
pub open spec fn cache_key_lt(a: CacheKeyView, b: CacheKeyView) -> bool {
    kind_id(a.kind) < kind_id(b.kind) || (kind_id(a.kind) == kind_id(b.kind) && (bytes_lt(
        a.file_sha256,
        b.file_sha256,
    ) || (a.file_sha256 == b.file_sha256 && a.file_length < b.file_length)))
}

impl RecencyKey for MediaUploadCacheKey {
    open spec fn key_lt(a: CacheKeyView, b: CacheKeyView) -> bool {
        cache_key_lt(a, b)
    }

    proof fn lemma_key_order(a: CacheKeyView, b: CacheKeyView, c: CacheKeyView) {
        lemma_bytes_order(a.file_sha256, b.file_sha256, c.file_sha256);
        lemma_bytes_order(b.file_sha256, a.file_sha256, c.file_sha256);
        lemma_kind_id_round_trip(a.kind, 0);
        lemma_kind_id_round_trip(b.kind, 0);
        lemma_kind_id_round_trip(c.kind, 0);
    }

    fn compare_key(&self, other: &Self) -> (r: KeyOrder) {
        proof {
            Self::lemma_key_order(self@, other@, self@);
            lemma_bytes_order(self@.file_sha256, other@.file_sha256, self@.file_sha256);
        }
        let a = media_kind_cache_id(self.kind);
        let b = media_kind_cache_id(other.kind);
        if a < b {
            return KeyOrder::Less;
        }
        if a > b {
            return KeyOrder::Greater;
        }
        let c = compare_bytes(self.file_sha256.as_slice(), other.file_sha256.as_slice());
        if c != KeyOrder::Equal {
            return c;
        }
        if self.file_length < other.file_length {
            KeyOrder::Less
        } else if self.file_length > other.file_length {
            KeyOrder::Greater
        } else {
            KeyOrder::Equal
        }
    }

    fn copy_key(&self) -> (r: Self) {
        MediaUploadCacheKey {
            kind: self.kind,
            file_sha256: self.file_sha256.clone(),
            file_length: self.file_length,
        }
    }
}

impl RecencyValue for UploadedMedia {
    fn copy_value(&self) -> (r: Self) {
        self.copy()
    }
}

/// How many uploads the cache keeps and for how long.
#[derive(Clone, Copy, Debug, PartialEq, Eq)]
pub struct MemoryMediaUploadCacheConfig {
    pub capacity: usize,
    pub ttl_ms: u64,
}

impl Default for MemoryMediaUploadCacheConfig {
    fn default() -> (c: Self)
        ensures
            c.capacity == DEFAULT_MEDIA_UPLOAD_CACHE_CAPACITY,
            c.ttl_ms == DEFAULT_MEDIA_UPLOAD_CACHE_TTL_MS,
    {
        MemoryMediaUploadCacheConfig {
            capacity: DEFAULT_MEDIA_UPLOAD_CACHE_CAPACITY,
            ttl_ms: DEFAULT_MEDIA_UPLOAD_CACHE_TTL_MS,
        }
    }
}

/// Cached media fits its key: it has a location, the key's length and
/// digest, a full media key and an encrypted digest.
pub open spec fn cached_media_ok(key: CacheKeyView, media: UploadedMediaView) -> bool {
    &&& present(media.url) || present(media.direct_path)
    &&& media.file_length == key.file_length
    &&& key.file_sha256 == media.file_sha256
    &&& media.media_key.len() == 32
    &&& media.file_enc_sha256.len() == 32
}

/// The text of the error for media that does not fit its cache key: the
/// first rule of `cached_media_ok` that it breaks.
pub open spec fn cached_media_fault(key: CacheKeyView, media: UploadedMediaView) -> Seq<char> {
    if !(present(media.url) || present(media.direct_path)) {
        "cached media requires a URL or direct path"@
    } else if media.file_length != key.file_length {
        "cached media length mismatch: expected "@ + crate::text::decimal_chars(key.file_length as nat)
            + ", got "@ + crate::text::decimal_chars(media.file_length as nat)
    } else if key.file_sha256 != media.file_sha256 {
        "cached media plaintext SHA-256 mismatch"@
    } else if media.media_key.len() != 32 {
        "cached media key must be 32 bytes, got "@ + crate::text::decimal_chars(media.media_key.len())
    } else {
        "cached media encrypted SHA-256 must be 32 bytes, got "@ + crate::text::decimal_chars(
            media.file_enc_sha256.len(),
        )
    }
}

/// Refuses media that does not fit its cache key.
pub fn validate_cached_media_matches_key(key: &MediaUploadCacheKey, media: &UploadedMedia) -> (r: CoreResult<()>)
    ensures
        match r {
            Ok(_) => cached_media_ok(key@, media@),
            Err(e) => !cached_media_ok(key@, media@) && (e matches CoreError::Payload(m) && m@
                == cached_media_fault(key@, media@)),
        },
{
    let has_url = match &media.url {
        Some(u) => !u.as_str().is_empty(),
        None => false,
    };
    let has_path = match &media.direct_path {
        Some(p) => !p.as_str().is_empty(),
        None => false,
    };
    if !has_url && !has_path {
        return Err(crate::error::payload("cached media requires a URL or direct path"));
    }
    if media.file_length != key.file_length {
        let a = crate::text::u64_to_string(key.file_length);
        let b = crate::text::u64_to_string(media.file_length);
        let m = crate::text::concat3("cached media length mismatch: expected ", a.as_str(), ", got ");
        return Err(CoreError::Payload(concat2(m.as_str(), b.as_str())));
    }
    if !constant_time_eq(key.file_sha256.as_slice(), media.file_sha256.as_slice()) {
        return Err(crate::error::payload("cached media plaintext SHA-256 mismatch"));
    }
    if media.media_key.len() != 32 {
        let n = crate::text::u64_to_string(media.media_key.len() as u64);
        return Err(CoreError::Payload(concat2("cached media key must be 32 bytes, got ", n.as_str())));
    }
    if media.file_enc_sha256.len() != 32 {
        let n = crate::text::u64_to_string(media.file_enc_sha256.len() as u64);
        return Err(
            CoreError::Payload(
                concat2("cached media encrypted SHA-256 must be 32 bytes, got ", n.as_str()),
            ),
        );
    }
    Ok(())
}

/// Uploads kept in memory for a while, at most a given number; when full,
/// the upload used least recently is dropped. Time is given by the caller in
/// milliseconds.
pub struct MemoryMediaUploadCache {
    map: RecencyMap<MediaUploadCacheKey, UploadedMedia>,
}

impl MemoryMediaUploadCache {
    /// The cached uploads in key order: key, media, when stored, when last
    /// used.
    pub closed spec fn entries(&self) -> Seq<(CacheKeyView, UploadedMediaView, u64, u64)> {
        self.map.entries()
    }

    pub closed spec fn capacity(&self) -> nat {
        self.map.spec_capacity()
    }

    pub closed spec fn ttl(&self) -> u64 {
        self.map.spec_ttl()
    }

    pub closed spec fn wf(&self) -> bool {
        self.map.wf()
    }

    /// An empty cache with the given limits.
    pub fn new(config: MemoryMediaUploadCacheConfig) -> (c: Self)
        ensures
            c.wf(),
            c.entries().len() == 0,
            c.capacity() == config.capacity,
            c.ttl() == config.ttl_ms,
    {
        MemoryMediaUploadCache { map: RecencyMap::new(config.capacity, config.ttl_ms) }
    }

    /// An empty cache holding at most `capacity` uploads, kept for the
    /// default time.
    pub fn with_capacity(capacity: usize) -> (c: Self)
        ensures
            c.wf(),
            c.entries().len() == 0,
            c.capacity() == capacity,
            c.ttl() == DEFAULT_MEDIA_UPLOAD_CACHE_TTL_MS,
    {
        Self::new(MemoryMediaUploadCacheConfig { capacity, ttl_ms: DEFAULT_MEDIA_UPLOAD_CACHE_TTL_MS })
    }

    /// The number of uploads held, expired ones included.
    pub fn len(&self) -> (n: usize)
        ensures
            n == self.entries().len(),
    {
        self.map.len()
    }

    /// Whether no upload is held, expired ones included.
    pub fn is_empty(&self) -> (b: bool)
        ensures
            b == (self.entries().len() == 0),
    {
        self.map.len() == 0
    }

    /// The upload cached under `key` at `now`, marking it used.
    pub fn get_media_upload(&mut self, key: &MediaUploadCacheKey, now: u64) -> (r: Option<UploadedMedia>)
        requires
            old(self).wf(),
        ensures
            final(self).wf(),
            final(self).capacity() == old(self).capacity(),
            final(self).ttl() == old(self).ttl(),
            ({
                let s = live(old(self).entries(), now, old(self).ttl());
                let i = find_key(s, key@);
                if i >= 0 {
                    &&& final(self).entries() == s.update(i, (s[i].0, s[i].1, s[i].2, now))
                    &&& r matches Some(m) && m@ == s[i].1
                } else {
                    final(self).entries() == s && r is None
                }
            }),
    {
        self.map.get(key, now)
    }

    /// Caches an upload under `key` at `now`; media that does not fit the
    /// key is refused and nothing changes.
    pub fn store_media_upload(&mut self, key: MediaUploadCacheKey, media: UploadedMedia, now: u64) -> (r:
        CoreResult<()>)
        requires
            old(self).wf(),
        ensures
            final(self).wf(),
            final(self).capacity() == old(self).capacity(),
            final(self).ttl() == old(self).ttl(),
            match r {
                Ok(_) => {
                    let s = live(old(self).entries(), now, old(self).ttl());
                    &&& cached_media_ok(key@, media@)
                    &&& final(self).entries() == if old(self).capacity() == 0 {
                        s
                    } else {
                        evict_over::<MediaUploadCacheKey, UploadedMediaView>(
                            upsert::<MediaUploadCacheKey, UploadedMediaView>(s, key@, media@, now),
                            old(self).capacity(),
                        )
                    }
                },
                Err(e) => !cached_media_ok(key@, media@) && final(self).entries() == old(self).entries()
                    && (e matches CoreError::Payload(m) && m@ == cached_media_fault(key@, media@)),
            },
    {
        validate_cached_media_matches_key(&key, &media)?;
        self.map.insert(key, media, now);
        Ok(())
    }
}

impl Default for MemoryMediaUploadCache {
    fn default() -> (c: Self)
        ensures
            c.wf(),
            c.entries().len() == 0,
            c.capacity() == DEFAULT_MEDIA_UPLOAD_CACHE_CAPACITY,
            c.ttl() == DEFAULT_MEDIA_UPLOAD_CACHE_TTL_MS,
    {
        Self::new(MemoryMediaUploadCacheConfig::default())
    }
}

/// An upload stored at `now` is found at `now`, as long as the cache holds
/// something, entries live for some time and every entry already there was
/// last used earlier.
pub proof fn lemma_upload_found_after_store(
    s: Seq<(CacheKeyView, UploadedMediaView, u64, u64)>,
    key: CacheKeyView,
    media: UploadedMediaView,
    now: u64,
    capacity: nat,
    ttl: u64,
)
    requires
        crate::recency::sorted::<MediaUploadCacheKey, UploadedMediaView>(s),
        s.len() <= capacity,
        capacity > 0,
        ttl > 0,
        forall|j: int| 0 <= j < s.len() ==> (#[trigger] s[j]).3 < now,
    ensures
        ({
            let stored = evict_over::<MediaUploadCacheKey, UploadedMediaView>(
                upsert::<MediaUploadCacheKey, UploadedMediaView>(live(s, now, ttl), key, media, now),
                capacity,
            );
            let read = live(stored, now, ttl);
            find_key(read, key) >= 0 && read[find_key(read, key)].1 == media
        }),
{
    crate::recency::lemma_get_after_insert::<MediaUploadCacheKey, UploadedMediaView>(
        s,
        key,
        media,
        now,
        capacity,
        ttl,
    );
}

} // verus!
