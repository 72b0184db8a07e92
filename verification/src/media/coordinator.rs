//! Bookkeeping of media awaiting re-upload by the phone, and the checks that
//! a re-upload notification goes through.

use crate::error::{protocol, CoreError, CoreResult};
use crate::key::{EventKeyView, MessageEventKey};
use crate::media::{
    pending_valid, retry_key_valid, validate_media_retry_key, validate_pending_media_retry,
    MediaRetryPendingEntry, MediaRetryResult, PendingEntryView, PendingMediaRetry,
    PendingMediaRetryView, DEFAULT_MEDIA_RETRY_COORDINATOR_CAPACITY,
    DEFAULT_MEDIA_RETRY_COORDINATOR_TTL_MS,
};
use crate::message::{UploadedMedia, UploadedMediaView};
use crate::recency::{evict_over, find_key, live, upsert, RecencyMap};
use crate::text::{concat2, opt_view, owned};
use vstd::prelude::*;

verus! {

/// How many entries the coordinator keeps and for how long.
#[derive(Clone, Copy, Debug, PartialEq, Eq)]
pub struct MediaRetryCoordinatorConfig {
    pub capacity: usize,
    pub ttl_ms: u64,
}

impl Default for MediaRetryCoordinatorConfig {
    fn default() -> (c: Self)
        ensures
            c.capacity == DEFAULT_MEDIA_RETRY_COORDINATOR_CAPACITY,
            c.ttl_ms == DEFAULT_MEDIA_RETRY_COORDINATOR_TTL_MS,
    {
        MediaRetryCoordinatorConfig {
            capacity: DEFAULT_MEDIA_RETRY_COORDINATOR_CAPACITY,
            ttl_ms: DEFAULT_MEDIA_RETRY_COORDINATOR_TTL_MS,
        }
    }
}

/// A media re-upload notification received for a message.
#[derive(Clone, Debug, PartialEq, Eq)]
pub struct MediaRetryEvent {
    pub key: MessageEventKey,
    pub error_code: Option<u16>,
    pub status_code: Option<u16>,
    pub encrypted_payload: Option<Vec<u8>>,
    pub iv: Option<Vec<u8>>,
}

/// The entries after registering `p` under `k` at `now`: the expired ones
/// dropped, `p` stored, and the least recently used dropped while over
/// capacity (a capacity of zero keeps nothing new).
pub open spec fn registered(
    s: Seq<(EventKeyView, PendingMediaRetryView, u64, u64)>,
    k: EventKeyView,
    p: PendingMediaRetryView,
    now: u64,
    ttl: u64,
    capacity: nat,
) -> Seq<(EventKeyView, PendingMediaRetryView, u64, u64)> {
    let l = live(s, now, ttl);
    if capacity == 0 {
        l
    } else {
        evict_over::<MessageEventKey, PendingMediaRetryView>(
            upsert::<MessageEventKey, PendingMediaRetryView>(l, k, p, now),
            capacity,
        )
    }
}

/// The entries after registering each of `list`, in order.
pub open spec fn after_restoring(
    s: Seq<(EventKeyView, PendingMediaRetryView, u64, u64)>,
    list: Seq<PendingEntryView>,
    now: u64,
    ttl: u64,
    capacity: nat,
) -> Seq<(EventKeyView, PendingMediaRetryView, u64, u64)>
    decreases list.len(),
{
    if list.len() == 0 {
        s
    } else {
        registered(
            after_restoring(s, list.drop_last(), now, ttl, capacity),
            list.last().key,
            list.last().pending,
            now,
            ttl,
            capacity,
        )
    }
}

/// Registering never takes the coordinator over its capacity: when the new
/// entry would, the least recently used one is dropped.
pub proof fn lemma_register_within_capacity(
    s: Seq<(EventKeyView, PendingMediaRetryView, u64, u64)>,
    k: EventKeyView,
    p: PendingMediaRetryView,
    now: u64,
    ttl: u64,
    capacity: nat,
)
    requires
        s.len() <= capacity,
    ensures
        registered(s, k, p, now, ttl, capacity).len() <= capacity,
{
    let l = live(s, now, ttl);
    crate::recency::lemma_live_len(s, now, ttl);
    if capacity > 0 {
        let u = upsert::<MessageEventKey, PendingMediaRetryView>(l, k, p, now);
        if find_key(l, k) < 0 {
            crate::recency::lemma_count_below_range::<MessageEventKey, PendingMediaRetryView>(l, k);
        } else {
            crate::recency::lemma_find_key_found(l, k);
        }
        assert(u.len() <= l.len() + 1);
        crate::recency::lemma_lru_index_range::<MessageEventKey, PendingMediaRetryView>(u);
    }
}

/// An entry expires once `ttl` has passed since it was registered, however
/// recently it was looked up (a lookup keeps the registration time and
/// only marks the entry used): a lookup at `now` then finds nothing for its
/// key.
pub proof fn lemma_expired_not_found(
    s: Seq<(EventKeyView, PendingMediaRetryView, u64, u64)>,
    k: EventKeyView,
    now: u64,
    ttl: u64,
)
    requires
        crate::recency::sorted::<MessageEventKey, PendingMediaRetryView>(s),
        find_key(s, k) >= 0,
        !crate::recency::alive(s[find_key(s, k)].2, now, ttl),
    ensures
        find_key(live(s, now, ttl), k) == -1,
{
    let l = live(s, now, ttl);
    let idx = find_key(s, k);
    crate::recency::lemma_find_key_found(s, k);
    assert forall|j: int| 0 <= j < l.len() implies l[j].0 != k by {
        crate::recency::lemma_live_sub(s, now, ttl, j);
        crate::recency::lemma_live_alive(s, now, ttl, j);
        let i = choose|i: int| j <= i < s.len() && l[j] == s[i];
        if l[j].0 == k {
            <MessageEventKey as crate::recency::RecencyKey>::lemma_key_order(k, k, k);
            if i < idx {
                assert(<MessageEventKey as crate::recency::RecencyKey>::key_lt(s[i].0, s[idx].0));
            } else if idx < i {
                assert(<MessageEventKey as crate::recency::RecencyKey>::key_lt(s[idx].0, s[i].0));
            }
        }
    }
    crate::recency::lemma_find_key_absent(l, k);
}

/// Registering a new message when the coordinator is full drops exactly
/// one entry: the least recently used one, that is, registered or looked
/// up longest ago (ties broken by key), so the count stays at capacity.
pub proof fn lemma_register_evicts_least_recent(
    s: Seq<(EventKeyView, PendingMediaRetryView, u64, u64)>,
    k: EventKeyView,
    p: PendingMediaRetryView,
    now: u64,
    ttl: u64,
    capacity: nat,
)
    requires
        crate::recency::sorted::<MessageEventKey, PendingMediaRetryView>(s),
        capacity > 0,
        live(s, now, ttl).len() == capacity,
        find_key(live(s, now, ttl), k) < 0,
    ensures
        ({
            let u = upsert::<MessageEventKey, PendingMediaRetryView>(live(s, now, ttl), k, p, now);
            let dropped = crate::recency::lru_index::<MessageEventKey, PendingMediaRetryView>(u);
            &&& 0 <= dropped < u.len()
            &&& registered(s, k, p, now, ttl, capacity) == u.remove(dropped)
            &&& registered(s, k, p, now, ttl, capacity).len() == capacity
            &&& forall|j: int|
                0 <= j < u.len() && j != dropped ==> !crate::recency::used_before::<
                    MessageEventKey,
                    PendingMediaRetryView,
                >(#[trigger] u[j], u[dropped])
        }),
{
    let l = live(s, now, ttl);
    crate::recency::lemma_live_sorted::<MessageEventKey, PendingMediaRetryView>(s, now, ttl);
    crate::recency::lemma_upsert_sorted_any::<MessageEventKey, PendingMediaRetryView>(l, k, p, now);
    crate::recency::lemma_count_below_range::<MessageEventKey, PendingMediaRetryView>(l, k);
    let u = upsert::<MessageEventKey, PendingMediaRetryView>(l, k, p, now);
    assert(u.len() == capacity + 1);
    crate::recency::lemma_lru_index_range::<MessageEventKey, PendingMediaRetryView>(u);
    assert forall|j: int|
        0 <= j < u.len() && j != crate::recency::lru_index::<MessageEventKey, PendingMediaRetryView>(u) implies !crate::recency::used_before::<
        MessageEventKey,
        PendingMediaRetryView,
    >(#[trigger] u[j], u[crate::recency::lru_index::<MessageEventKey, PendingMediaRetryView>(u)]) by {
        crate::recency::lemma_lru_is_least::<MessageEventKey, PendingMediaRetryView>(u, j);
    }
}

pub open spec fn entry_views(v: Seq<MediaRetryPendingEntry>) -> Seq<PendingEntryView> {
    v.map_values(|e: MediaRetryPendingEntry| e@)
}

/// Pending media of messages, kept for a while and bounded in number; when
/// full, the entry used least recently is dropped. Time is given by the
/// caller in milliseconds.
pub struct MediaRetryCoordinator {
    map: RecencyMap<MessageEventKey, PendingMediaRetry>,
}

impl MediaRetryCoordinator {
    /// The pending entries in key order: key, media, when stored, when last
    /// used.
    pub closed spec fn entries(&self) -> Seq<(EventKeyView, PendingMediaRetryView, u64, u64)> {
        self.map.entries()
    }

    pub closed spec fn capacity(&self) -> nat {
        self.map.spec_capacity()
    }

    pub closed spec fn ttl(&self) -> u64 {
        self.map.spec_ttl()
    }

    pub closed spec fn wf(&self) -> bool {
        self.map.wf()
    }

    /// An empty coordinator with the given limits.
    pub fn new(config: MediaRetryCoordinatorConfig) -> (c: Self)
        ensures
            c.wf(),
            c.entries().len() == 0,
            c.capacity() == config.capacity,
            c.ttl() == config.ttl_ms,
    {
        MediaRetryCoordinator { map: RecencyMap::new(config.capacity, config.ttl_ms) }
    }

    /// An empty coordinator holding at most `capacity` entries, with the
    /// default lifetime.
    pub fn with_capacity(capacity: usize) -> (c: Self)
        ensures
            c.wf(),
            c.entries().len() == 0,
            c.capacity() == capacity,
            c.ttl() == DEFAULT_MEDIA_RETRY_COORDINATOR_TTL_MS,
    {
        Self::new(MediaRetryCoordinatorConfig { capacity, ttl_ms: DEFAULT_MEDIA_RETRY_COORDINATOR_TTL_MS })
    }

    /// Remembers the pending media of a message at `now`. A key without chat
    /// or id, or media without full keys and digests, is refused and nothing
    /// changes.
    pub fn register(&mut self, key: MessageEventKey, pending: PendingMediaRetry, now: u64) -> (r: CoreResult<()>)
        requires
            old(self).wf(),
        ensures
            final(self).wf(),
            final(self).capacity() == old(self).capacity(),
            final(self).ttl() == old(self).ttl(),
            match r {
                Ok(_) => {
                    &&& retry_key_valid(key@) && pending_valid(pending@)
                    &&& final(self).entries() == registered(
                        old(self).entries(),
                        key@,
                        pending@,
                        now,
                        old(self).ttl(),
                        old(self).capacity(),
                    )
                },
                Err(e) => !(retry_key_valid(key@) && pending_valid(pending@)) && final(self).entries()
                    == old(self).entries() && (e matches CoreError::Payload(m) && m@
                    == crate::media::retry_entry_fault(key@, pending@)),
            },
    {
        validate_media_retry_key(&key)?;
        validate_pending_media_retry(&pending)?;
        self.map.insert(key, pending, now);
        Ok(())
    }

    /// The pending media of a message at `now`, marking it used.
    pub fn pending(&mut self, key: &MessageEventKey, now: u64) -> (r: Option<PendingMediaRetry>)
        requires
            old(self).wf(),
        ensures
            final(self).wf(),
            final(self).capacity() == old(self).capacity(),
            final(self).ttl() == old(self).ttl(),
            ({
                let s = live(old(self).entries(), now, old(self).ttl());
                let i = find_key(s, key@);
                if i >= 0 {
                    &&& final(self).entries() == s.update(i, (s[i].0, s[i].1, s[i].2, now))
                    &&& r matches Some(p) && p@ == s[i].1
                } else {
                    final(self).entries() == s && r is None
                }
            }),
    {
        self.map.get(key, now)
    }

    /// The pending media of a message at `now`, without marking it used.
    pub fn peek_pending(&mut self, key: &MessageEventKey, now: u64) -> (r: Option<PendingMediaRetry>)
        requires
            old(self).wf(),
        ensures
            final(self).wf(),
            final(self).capacity() == old(self).capacity(),
            final(self).ttl() == old(self).ttl(),
            final(self).entries() == live(old(self).entries(), now, old(self).ttl()),
            ({
                let s = final(self).entries();
                let i = find_key(s, key@);
                if i >= 0 {
                    r matches Some(p) && p@ == s[i].1
                } else {
                    r is None
                }
            }),
    {
        self.map.peek(key, now)
    }

    /// Records the media that a re-upload produced for a message and marks
    /// it used at `now`. Gives whether the message was pending.
    pub fn update_pending_media(&mut self, key: &MessageEventKey, media: UploadedMedia, now: u64) -> (found: bool)
        requires
            old(self).wf(),
        ensures
            final(self).wf(),
            final(self).capacity() == old(self).capacity(),
            final(self).ttl() == old(self).ttl(),
            ({
                let s = old(self).entries();
                let i = find_key(s, key@);
                if i >= 0 {
                    &&& found
                    &&& final(self).entries() == s.update(
                        i,
                        (s[i].0, PendingMediaRetryView { media: media@, ..s[i].1 }, s[i].2, now),
                    )
                } else {
                    !found && final(self).entries() == s
                }
            }),
    {
        let current = match self.map.peek_any(key) {
            Some(p) => p,
            None => return false,
        };
        let updated = PendingMediaRetry { media, kind: current.kind, fallback_host: current.fallback_host };
        self.map.replace_value(key, updated, now)
    }

    /// Forgets the pending media of a message, expired or not.
    pub fn remove(&mut self, key: &MessageEventKey) -> (r: Option<PendingMediaRetry>)
        requires
            old(self).wf(),
        ensures
            final(self).wf(),
            final(self).capacity() == old(self).capacity(),
            final(self).ttl() == old(self).ttl(),
            ({
                let s = old(self).entries();
                let i = find_key(s, key@);
                if i >= 0 {
                    &&& final(self).entries() == s.remove(i)
                    &&& r matches Some(p) && p@ == s[i].1
                } else {
                    final(self).entries() == s && r is None
                }
            }),
    {
        self.map.remove(key)
    }

    /// The entries still pending at `now`, in key order.
    pub fn pending_entries(&mut self, now: u64) -> (r: Vec<MediaRetryPendingEntry>)
        requires
            old(self).wf(),
        ensures
            final(self).wf(),
            final(self).capacity() == old(self).capacity(),
            final(self).ttl() == old(self).ttl(),
            final(self).entries() == live(old(self).entries(), now, old(self).ttl()),
            r@.len() == final(self).entries().len(),
            forall|j: int|
                0 <= j < r@.len() ==> (#[trigger] r@[j])@ == (PendingEntryView {
                    key: final(self).entries()[j].0,
                    pending: final(self).entries()[j].1,
                }),
    {
        let pairs = self.map.snapshot(now);
        let mut out: Vec<MediaRetryPendingEntry> = Vec::new();
        let mut rest = pairs;
        let ghost all = rest@;
        let total = rest.len();
        assert(all.len() == total);
        let mut j: usize = 0;
        while rest.len() > 0
            invariant
                j + rest@.len() == all.len(),
                all.len() <= usize::MAX,
                rest@ == all.skip(j as int),
                out@.len() == j,
                forall|q: int|
                    0 <= q < j ==> (#[trigger] out@[q])@ == (PendingEntryView {
                        key: all[q].0@,
                        pending: all[q].1@,
                    }),
            decreases rest@.len(),
        {
            let ghost before = rest@;
            let (k, p) = rest.remove(0);
            assert(before[0] == all[j as int]);
            assert(rest@ == all.skip(j as int + 1));
            out.push(MediaRetryPendingEntry { key: k, pending: p });
            j = j + 1;
        }
        out
    }

    /// Registers stored entries at `now`, in order; stops at the first one
    /// refused. Gives how many were registered.
    pub fn restore_pending_entries(&mut self, entries: Vec<MediaRetryPendingEntry>, now: u64) -> (r: CoreResult<usize>)
        requires
            old(self).wf(),
        ensures
            final(self).wf(),
            final(self).capacity() == old(self).capacity(),
            final(self).ttl() == old(self).ttl(),
            match r {
                Ok(n) => n == entries@.len() && (forall|j: int|
                    0 <= j < entries@.len() ==> retry_key_valid((#[trigger] entries@[j])@.key)
                        && pending_valid(entries@[j]@.pending)) && final(self).entries() == after_restoring(
                    old(self).entries(),
                    entry_views(entries@),
                    now,
                    old(self).ttl(),
                    old(self).capacity(),
                ),
                Err(e) => exists|j: int|
                    0 <= j < entries@.len() && !(retry_key_valid((#[trigger] entries@[j])@.key)
                        && pending_valid(entries@[j]@.pending)) && (forall|q: int|
                        0 <= q < j ==> retry_key_valid((#[trigger] entries@[q])@.key) && pending_valid(
                            entries@[q]@.pending,
                        )) && (e matches CoreError::Payload(m) && m@ == crate::media::retry_entry_fault(
                        entries@[j]@.key,
                        entries@[j]@.pending,
                    )) && final(self).entries() == after_restoring(
                        old(self).entries(),
                        entry_views(entries@).take(j),
                        now,
                        old(self).ttl(),
                        old(self).capacity(),
                    ),
            },
    {
        let ghost all = entries@;
        let mut rest = entries;
        let total = rest.len();
        assert(all.len() == total);
        let mut restored: usize = 0;
        assert(entry_views(all).take(0) == Seq::<PendingEntryView>::empty());
        while rest.len() > 0
            invariant
                self.wf(),
                self.capacity() == old(self).capacity(),
                self.ttl() == old(self).ttl(),
                restored + rest@.len() == all.len(),
                all.len() <= usize::MAX,
                all == entries@,
                rest@ == all.skip(restored as int),
                forall|j: int|
                    0 <= j < restored ==> retry_key_valid((#[trigger] all[j])@.key) && pending_valid(
                        all[j]@.pending,
                    ),
                self.entries() == after_restoring(
                    old(self).entries(),
                    entry_views(all).take(restored as int),
                    now,
                    old(self).ttl(),
                    old(self).capacity(),
                ),
            decreases rest@.len(),
        {
            let ghost before = rest@;
            let entry = rest.remove(0);
            assert(before[0] == all[restored as int]);
            assert(rest@ == all.skip(restored as int + 1));
            let ghost ev = entry@;
            assert(ev == all[restored as int]@);
            let ghost prior = self.entries();
            match self.register(entry.key, entry.pending, now) {
                Ok(_) => {
                    proof {
                        let vs = entry_views(all).take(restored as int + 1);
                        assert(vs.drop_last() == entry_views(all).take(restored as int));
                        assert(vs.last() == ev);
                    }
                },
                Err(e) => {
                    assert(!(retry_key_valid(all[restored as int]@.key) && pending_valid(
                        all[restored as int]@.pending,
                    )));
                    return Err(e);
                },
            }
            restored = restored + 1;
        }
        assert(entry_views(all).take(restored as int) == entry_views(all));
        Ok(restored)
    }

    /// The number of entries held, expired ones included.
    pub fn len(&self) -> (n: usize)
        ensures
            n == self.entries().len(),
    {
        self.map.len()
    }

    /// Whether no entry is held, expired ones included.
    pub fn is_empty(&self) -> (b: bool)
        ensures
            b == (self.entries().len() == 0),
    {
        self.map.len() == 0
    }
}

impl Default for MediaRetryCoordinator {
    fn default() -> (c: Self)
        ensures
            c.wf(),
            c.entries().len() == 0,
            c.capacity() == DEFAULT_MEDIA_RETRY_COORDINATOR_CAPACITY,
            c.ttl() == DEFAULT_MEDIA_RETRY_COORDINATOR_TTL_MS,
    {
        Self::new(MediaRetryCoordinatorConfig::default())
    }
}

/// Pending media registered at `now` is found at `now`, as long as entries
/// live for some time and every entry already there was last used earlier.
pub proof fn lemma_pending_after_register(
    s: Seq<(EventKeyView, PendingMediaRetryView, u64, u64)>,
    key: EventKeyView,
    pending: PendingMediaRetryView,
    now: u64,
    capacity: nat,
    ttl: u64,
)
    requires
        crate::recency::sorted::<MessageEventKey, PendingMediaRetryView>(s),
        s.len() <= capacity,
        capacity > 0,
        ttl > 0,
        forall|j: int| 0 <= j < s.len() ==> (#[trigger] s[j]).3 < now,
    ensures
        ({
            let stored = evict_over::<MessageEventKey, PendingMediaRetryView>(
                upsert::<MessageEventKey, PendingMediaRetryView>(live(s, now, ttl), key, pending, now),
                capacity,
            );
            let read = live(stored, now, ttl);
            find_key(read, key) >= 0 && read[find_key(read, key)].1 == pending
        }),
{
    crate::recency::lemma_get_after_insert::<MessageEventKey, PendingMediaRetryView>(
        s,
        key,
        pending,
        now,
        capacity,
        ttl,
    );
}

// ---------------------------------------------------------------------------
// Applying a re-upload notification.
// ---------------------------------------------------------------------------

/// What a re-upload notification says about a message's media.
#[derive(Clone, Debug, PartialEq, Eq)]
pub struct MediaRetryApplication {
    pub result: MediaRetryResult,
    pub status_code: u16,
    pub media: UploadedMedia,
    pub direct_path: Option<String>,
    pub message_secret: Option<Vec<u8>>,
}

/// Media downloaded after a re-upload.
#[derive(Clone, Debug, PartialEq, Eq)]
pub struct MediaRetryDownload {
    pub application: MediaRetryApplication,
    pub plaintext: Vec<u8>,
}

/// A re-upload notification that could not be turned into a download.
#[derive(Clone, Debug, PartialEq, Eq)]
pub struct MediaRetryBatchError {
    pub key: MessageEventKey,
    pub error_code: Option<u16>,
    pub status_code: Option<u16>,
    pub reason: String,
}

impl MediaRetryBatchError {
    /// The failure of `retry`, for `reason`.
    pub fn from_retry_event(retry: &MediaRetryEvent, reason: &str) -> (e: Self)
        ensures
            e.key@ == retry.key@,
            e.error_code == retry.error_code,
            e.status_code == retry.status_code,
            e.reason@ == reason@,
    {
        MediaRetryBatchError {
            key: retry.key.copy(),
            error_code: retry.error_code,
            status_code: retry.status_code,
            reason: owned(reason),
        }
    }
}

/// What a batch of re-upload notifications led to.
#[derive(Clone, Debug, PartialEq, Eq)]
pub struct MediaRetryBatchOutcome {
    pub downloads: Vec<MediaRetryDownload>,
    pub errors: Vec<MediaRetryBatchError>,
    pub ignored_without_pending: usize,
    pub malformed_stored_records: usize,
}

impl MediaRetryBatchOutcome {
    /// An outcome with nothing in it.
    pub fn new() -> (o: Self)
        ensures
            o.downloads@.len() == 0,
            o.errors@.len() == 0,
            o.ignored_without_pending == 0,
            o.malformed_stored_records == 0,
    {
        MediaRetryBatchOutcome {
            downloads: Vec::new(),
            errors: Vec::new(),
            ignored_without_pending: 0,
            malformed_stored_records: 0,
        }
    }

    /// Whether the batch led to nothing at all.
    pub fn is_empty(&self) -> (b: bool)
        ensures
            b == (self.downloads@.len() == 0 && self.errors@.len() == 0
                && self.ignored_without_pending == 0 && self.malformed_stored_records == 0),
    {
        self.downloads.len() == 0 && self.errors.len() == 0 && self.ignored_without_pending == 0
            && self.malformed_stored_records == 0
    }
}

/// When a re-upload notification carries what decryption needs: no error
/// code, a message id, a ciphertext and an IV.
pub open spec fn retry_event_ok(retry: MediaRetryEvent) -> bool {
    &&& retry.error_code.is_none()
    &&& retry.key@.id.len() > 0
    &&& retry.encrypted_payload.is_some()
    &&& retry.iv.is_some()
}

/// Why a re-upload notification cannot be decrypted: the first missing
/// part.
pub open spec fn retry_event_fault(retry: MediaRetryEvent) -> Seq<char> {
    if retry.error_code is Some {
        "media retry returned error code "@ + crate::text::decimal_chars(retry.error_code.unwrap() as nat)
            + " with status "@ + crate::text::decimal_chars(
            match retry.status_code {
                Some(s) => s as nat,
                None => 0,
            },
        )
    } else if retry.key@.id.len() == 0 {
        "media retry event missing stanza id"@
    } else if retry.encrypted_payload is None {
        "media retry event missing encrypted payload"@
    } else {
        "media retry event missing IV"@
    }
}

/// The ciphertext and IV of a re-upload notification, to be decrypted with
/// the media key.
pub fn media_retry_payload(retry: &MediaRetryEvent) -> (r: CoreResult<(Vec<u8>, Vec<u8>)>)
    ensures
        match r {
            Ok((c, iv)) => retry_event_ok(*retry) && Some(c@) == match retry.encrypted_payload {
                Some(p) => Some(p@),
                None => None::<Seq<u8>>,
            } && Some(iv@) == match retry.iv {
                Some(p) => Some(p@),
                None => None::<Seq<u8>>,
            },
            Err(e) => !retry_event_ok(*retry) && (e matches CoreError::Protocol(m) && m@ == retry_event_fault(*retry)),
        },
{
    if let Some(code) = retry.error_code {
        let c = crate::text::u64_to_string(code as u64);
        let status: u16 = match retry.status_code {
            Some(s) => s,
            None => 0,
        };
        let st = crate::text::u64_to_string(status as u64);
        let m1 = crate::text::concat3("media retry returned error code ", c.as_str(), " with status ");
        return Err(CoreError::Protocol(concat2(m1.as_str(), st.as_str())));
    }
    if retry.key.id.as_str().is_empty() {
        return Err(protocol("media retry event missing stanza id"));
    }
    let ciphertext = match &retry.encrypted_payload {
        Some(c) => c.clone(),
        None => {
            return Err(protocol("media retry event missing encrypted payload"));
        },
    };
    let iv = match &retry.iv {
        Some(v) => v.clone(),
        None => {
            return Err(protocol("media retry event missing IV"));
        },
    };
    Ok((ciphertext, iv))
}

/// The re-upload result named by a notification's result code.
pub open spec fn result_of_code(code: i32) -> Option<MediaRetryResult> {
    if code == 0 {
        Some(MediaRetryResult::GeneralError)
    } else if code == 1 {
        Some(MediaRetryResult::Success)
    } else if code == 2 {
        Some(MediaRetryResult::NotFound)
    } else if code == 3 {
        Some(MediaRetryResult::DecryptionError)
    } else {
        None
    }
}

fn result_from_code(code: i32) -> (r: Option<MediaRetryResult>)
    ensures
        r == result_of_code(code),
{
    match code {
        0 => Some(MediaRetryResult::GeneralError),
        1 => Some(MediaRetryResult::Success),
        2 => Some(MediaRetryResult::NotFound),
        3 => Some(MediaRetryResult::DecryptionError),
        _ => None,
    }
}

pub open spec fn opt_str_view(o: Option<&str>) -> Option<Seq<char>> {
    match o {
        Some(s) => Some(s@),
        None => None,
    }
}

/// A direct path that is present and not empty.
pub open spec fn non_empty_path(o: Option<Seq<char>>) -> Option<Seq<char>> {
    match o {
        Some(p) => if p.len() > 0 {
            Some(p)
        } else {
            None
        },
        None => None,
    }
}

/// When a decrypted notification can be applied to a message: it names the
/// message, carries a known result and, on success, a direct path.
pub open spec fn notification_ok(
    message_id: Seq<char>,
    stanza_id: Option<Seq<char>>,
    result: Option<i32>,
    direct_path: Option<Seq<char>>,
) -> bool {
    &&& stanza_id == Some(message_id)
    &&& result matches Some(c) && result_of_code(c).is_some()
    &&& (result_of_code(result.unwrap()) == Some(MediaRetryResult::Success) ==> non_empty_path(
        direct_path,
    ).is_some())
}

/// Why a decrypted notification cannot be applied: the first fault.
pub open spec fn notification_fault(message_id: Seq<char>, stanza_id: Option<Seq<char>>, result: Option<i32>) -> Seq<char> {
    match stanza_id {
        None => "media retry notification missing stanza id"@,
        Some(sid) => if sid != message_id {
            "media retry notification stanza id mismatch: expected "@ + message_id + ", got "@ + sid
        } else if !(result matches Some(c) && result_of_code(c).is_some()) {
            "media retry notification missing result"@
        } else {
            "successful media retry notification missing direct path"@
        },
    }
}

/// Applies a decrypted re-upload notification to the media of the message
/// with id `message_id`: a successful re-upload moves the media to the new
/// direct path.
pub fn finish_media_retry_application(
    message_id: &str,
    media: &UploadedMedia,
    stanza_id: Option<&str>,
    result: Option<i32>,
    direct_path: Option<&str>,
    message_secret: Option<Vec<u8>>,
) -> (r: CoreResult<MediaRetryApplication>)
    ensures
        match r {
            Ok(a) => {
                &&& notification_ok(
                    message_id@,
                    opt_str_view(stanza_id),
                    result,
                    opt_str_view(direct_path),
                )
                &&& Some(a.result) == result_of_code(result.unwrap())
                &&& a.status_code == a.result.code()
                &&& opt_view(a.direct_path) == non_empty_path(opt_str_view(direct_path))
                &&& a.media@ == if a.result == MediaRetryResult::Success {
                    UploadedMediaView { direct_path: non_empty_path(opt_str_view(direct_path)), ..media@ }
                } else {
                    media@
                }
                &&& a.message_secret == message_secret
            },
            Err(e) => !notification_ok(message_id@, opt_str_view(stanza_id), result, opt_str_view(direct_path))
                && (e matches CoreError::Protocol(m) && m@ == notification_fault(
                message_id@,
                opt_str_view(stanza_id),
                result,
            )),
        },
{
    let sid = match stanza_id {
        Some(s) => s,
        None => {
            return Err(protocol("media retry notification missing stanza id"));
        },
    };
    if !crate::text::str_eq(sid, message_id) {
        let m1 = crate::text::concat3(
            "media retry notification stanza id mismatch: expected ",
            message_id,
            ", got ",
        );
        return Err(CoreError::Protocol(concat2(m1.as_str(), sid)));
    }
    let res = match result {
        Some(c) => match result_from_code(c) {
            Some(x) => x,
            None => {
                return Err(protocol("media retry notification missing result"));
            },
        },
        None => {
            return Err(protocol("media retry notification missing result"));
        },
    };
    let path: Option<String> = match direct_path {
        Some(p) => if p.is_empty() {
            None
        } else {
            Some(owned(p))
        },
        None => None,
    };
    let mut updated = media.copy();
    if res == MediaRetryResult::Success {
        match &path {
            Some(p) => {
                updated.direct_path = Some(crate::text::clone_string(p));
            },
            None => {
                return Err(protocol("successful media retry notification missing direct path"));
            },
        }
    }
    Ok(
        MediaRetryApplication {
            result: res,
            status_code: res.status_code(),
            media: updated,
            direct_path: path,
            message_secret,
        },
    )
}

} // verus!
