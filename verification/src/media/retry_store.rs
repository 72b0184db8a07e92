//! The stored form of media awaiting re-upload: `pmr1`, a version byte, then
//! the message key, the media descriptor, the media kind and the fallback
//! host. Numbers are big-endian; byte fields are a `u32` length and the
//! bytes; optional values are a tag byte (0 absent, 1 present) and the value.

use crate::error::{CoreError, CoreResult};
use crate::key::{EventKeyView, MessageEventKey};
use crate::media::{
    kind_id, kind_of_id, media_kind_cache_id, media_kind_from_cache_id, pending_valid,
    retry_key_valid, validate_media_retry_key, validate_pending_media_retry, MediaKind,
    MediaRetryPendingEntry, PendingEntryView, PendingMediaRetry, PendingMediaRetryView,
};
use crate::message::{UploadedMedia, UploadedMediaView};
use crate::text::{concat2, opt_view};
use vstd::bytes::{
    lemma_auto_spec_u32_to_from_le_bytes, lemma_auto_spec_u64_to_from_le_bytes,
    spec_u32_from_le_bytes, spec_u32_to_le_bytes, spec_u64_from_le_bytes, spec_u64_to_le_bytes,
    u32_from_le_bytes, u32_to_le_bytes, u64_from_le_bytes, u64_to_le_bytes,
};
use vstd::prelude::*;
use vstd::utf8::{decode_utf8, encode_utf8, encode_utf8_decode_utf8, encode_utf8_valid_utf8, valid_utf8};

verus! {

/// Largest stored record.
pub const MAX_STORED_PENDING_MEDIA_RETRY_RECORD_BYTES: usize = 8_388_608;

/// Largest byte field in a stored record.
pub const MAX_STORED_PENDING_MEDIA_RETRY_FIELD_BYTES: usize = 65_536;

pub const STORED_PENDING_MEDIA_RETRY_VERSION: u8 = 1;

/// The magic bytes `pmr1`.
pub open spec fn record_magic() -> Seq<u8> {
    seq![0x70u8, 0x6du8, 0x72u8, 0x31u8]
}

// ---------------------------------------------------------------------------
// The encoding.
// ---------------------------------------------------------------------------

pub open spec fn be_u32(x: u32) -> Seq<u8> {
    spec_u32_to_le_bytes(x).reverse()
}

pub open spec fn be_u64(x: u64) -> Seq<u8> {
    spec_u64_to_le_bytes(x).reverse()
}

/// A byte field: its length as a big-endian `u32`, then the bytes.
pub open spec fn field(b: Seq<u8>) -> Seq<u8> {
    be_u32(b.len() as u32) + b
}

/// A string field: the UTF-8 bytes of the string as a byte field.
pub open spec fn str_field(s: Seq<char>) -> Seq<u8> {
    field(encode_utf8(s))
}

pub open spec fn opt_str_field(o: Option<Seq<char>>) -> Seq<u8> {
    match o {
        None => seq![0u8],
        Some(s) => seq![1u8] + str_field(s),
    }
}

pub open spec fn opt_i64_field(o: Option<i64>) -> Seq<u8> {
    match o {
        None => seq![0u8],
        Some(v) => seq![1u8] + be_u64(v as u64),
    }
}

pub open spec fn key_bytes(k: EventKeyView) -> Seq<u8> {
    str_field(k.remote_jid) + (str_field(k.id) + opt_str_field(k.participant))
}

pub open spec fn media_bytes(m: UploadedMediaView) -> Seq<u8> {
    opt_str_field(m.url) + (opt_str_field(m.direct_path) + (field(m.media_key) + (field(
        m.file_sha256,
    ) + (field(m.file_enc_sha256) + (be_u64(m.file_length) + opt_i64_field(
        m.media_key_timestamp,
    ))))))
}

/// The stored record of a pending entry.
pub open spec fn record_bytes(e: PendingEntryView) -> Seq<u8> {
    record_magic() + (seq![STORED_PENDING_MEDIA_RETRY_VERSION] + (key_bytes(e.key) + (media_bytes(
        e.pending.media,
    ) + (seq![kind_id(e.pending.kind)] + opt_str_field(e.pending.fallback_host)))))
}

pub open spec fn fits(b: Seq<u8>) -> bool {
    b.len() <= MAX_STORED_PENDING_MEDIA_RETRY_FIELD_BYTES
}

pub open spec fn str_fits(s: Seq<char>) -> bool {
    fits(encode_utf8(s))
}

pub open spec fn opt_str_fits(o: Option<Seq<char>>) -> bool {
    match o {
        Some(s) => str_fits(s),
        None => true,
    }
}

/// Every field of the entry fits the stored format.
pub open spec fn entry_fits(e: PendingEntryView) -> bool {
    &&& str_fits(e.key.remote_jid)
    &&& str_fits(e.key.id)
    &&& opt_str_fits(e.key.participant)
    &&& opt_str_fits(e.pending.media.url)
    &&& opt_str_fits(e.pending.media.direct_path)
    &&& fits(e.pending.media.media_key)
    &&& fits(e.pending.media.file_sha256)
    &&& fits(e.pending.media.file_enc_sha256)
    &&& opt_str_fits(e.pending.fallback_host)
}

/// An entry that may be stored: a valid key and valid pending media.
pub open spec fn entry_valid(e: PendingEntryView) -> bool {
    retry_key_valid(e.key) && pending_valid(e.pending)
}

// ---------------------------------------------------------------------------
// The decoding: each reader takes its value off the front of the bytes and
// gives back the rest.
// ---------------------------------------------------------------------------

pub open spec fn take_u32(b: Seq<u8>) -> Option<(u32, Seq<u8>)> {
    if b.len() >= 4 {
        Some((spec_u32_from_le_bytes(b.take(4).reverse()), b.skip(4)))
    } else {
        None
    }
}

pub open spec fn take_u64(b: Seq<u8>) -> Option<(u64, Seq<u8>)> {
    if b.len() >= 8 {
        Some((spec_u64_from_le_bytes(b.take(8).reverse()), b.skip(8)))
    } else {
        None
    }
}

pub open spec fn take_field(b: Seq<u8>) -> Option<(Seq<u8>, Seq<u8>)> {
    match take_u32(b) {
        Some((n, r)) => if n > MAX_STORED_PENDING_MEDIA_RETRY_FIELD_BYTES || r.len() < n {
            None
        } else {
            Some((r.take(n as int), r.skip(n as int)))
        },
        None => None,
    }
}

pub open spec fn take_str(b: Seq<u8>) -> Option<(Seq<char>, Seq<u8>)> {
    match take_field(b) {
        Some((f, r)) => if valid_utf8(f) {
            Some((decode_utf8(f), r))
        } else {
            None
        },
        None => None,
    }
}

pub open spec fn take_opt_str(b: Seq<u8>) -> Option<(Option<Seq<char>>, Seq<u8>)> {
    if b.len() == 0 {
        None
    } else if b[0] == 0 {
        Some((None, b.skip(1)))
    } else if b[0] == 1 {
        match take_str(b.skip(1)) {
            Some((s, r)) => Some((Some(s), r)),
            None => None,
        }
    } else {
        None
    }
}

pub open spec fn take_opt_i64(b: Seq<u8>) -> Option<(Option<i64>, Seq<u8>)> {
    if b.len() == 0 {
        None
    } else if b[0] == 0 {
        Some((None, b.skip(1)))
    } else if b[0] == 1 {
        match take_u64(b.skip(1)) {
            Some((v, r)) => Some((Some(v as i64), r)),
            None => None,
        }
    } else {
        None
    }
}

#[verifier::opaque]
pub open spec fn take_key(b: Seq<u8>) -> Option<(EventKeyView, Seq<u8>)> {
    match take_str(b) {
        None => None,
        Some((remote_jid, r1)) => match take_str(r1) {
            None => None,
            Some((id, r2)) => match take_opt_str(r2) {
                None => None,
                Some((participant, r3)) => Some((EventKeyView { remote_jid, id, participant }, r3)),
            },
        },
    }
}

#[verifier::opaque]
pub open spec fn take_media(b: Seq<u8>) -> Option<(UploadedMediaView, Seq<u8>)> {
    match take_opt_str(b) {
        None => None,
        Some((url, r1)) => match take_opt_str(r1) {
            None => None,
            Some((direct_path, r2)) => match take_field(r2) {
                None => None,
                Some((media_key, r3)) => match take_field(r3) {
                    None => None,
                    Some((file_sha256, r4)) => match take_field(r4) {
                        None => None,
                        Some((file_enc_sha256, r5)) => match take_u64(r5) {
                            None => None,
                            Some((file_length, r6)) => match take_opt_i64(r6) {
                                None => None,
                                Some((media_key_timestamp, r7)) => Some(
                                    (
                                        UploadedMediaView {
                                            url,
                                            direct_path,
                                            media_key,
                                            file_sha256,
                                            file_enc_sha256,
                                            file_length,
                                            media_key_timestamp,
                                        },
                                        r7,
                                    ),
                                ),
                            },
                        },
                    },
                },
            },
        },
    }
}

/// What follows the media descriptor: the media kind byte and the optional
/// fallback host, with nothing after them.
pub open spec fn take_tail(b: Seq<u8>) -> Option<(MediaKind, Option<Seq<char>>)> {
    if b.len() == 0 {
        None
    } else {
        match kind_of_id(b[0]) {
            None => None,
            Some(kind) => match take_opt_str(b.skip(1)) {
                None => None,
                Some((host, rest)) => if rest.len() == 0 {
                    Some((kind, host))
                } else {
                    None
                },
            },
        }
    }
}

/// The entry that a stored record spells, read without judging its values;
/// `None` when the bytes are not a record.
pub open spec fn parse_record(b: Seq<u8>) -> Option<PendingEntryView> {
    if b.len() > MAX_STORED_PENDING_MEDIA_RETRY_RECORD_BYTES || b.len() < 5 || b.take(4)
        != record_magic() || b[4] != STORED_PENDING_MEDIA_RETRY_VERSION {
        None
    } else {
        match take_key(b.skip(5)) {
            None => None,
            Some((key, r1)) => match take_media(r1) {
                None => None,
                Some((media, r2)) => match take_tail(r2) {
                    None => None,
                    Some((kind, fallback_host)) => Some(
                        PendingEntryView {
                            key,
                            pending: PendingMediaRetryView { media, kind, fallback_host },
                        },
                    ),
                },
            },
        }
    }
}

// ---------------------------------------------------------------------------
// Why bytes are not a record: the text of the error for the first reader
// that fails.
// ---------------------------------------------------------------------------

pub open spec fn field_fault(b: Seq<u8>) -> Seq<char> {
    match take_u32(b) {
        None => "stored pending media retry missing byte length"@,
        Some((n, _)) => if n > MAX_STORED_PENDING_MEDIA_RETRY_FIELD_BYTES {
            too_long_text()
        } else {
            "stored pending media retry field is truncated"@
        },
    }
}

pub open spec fn str_fault(b: Seq<u8>) -> Seq<char> {
    if take_field(b).is_none() {
        field_fault(b)
    } else {
        "stored pending media retry contains invalid UTF-8"@
    }
}

pub open spec fn opt_str_fault(b: Seq<u8>) -> Seq<char> {
    if b.len() == 0 {
        "stored pending media retry missing optional string tag"@
    } else if b[0] == 1 {
        str_fault(b.skip(1))
    } else {
        "stored pending media retry has invalid optional string tag "@ + crate::text::decimal_chars(b[0] as nat)
    }
}

pub open spec fn opt_i64_fault(b: Seq<u8>) -> Seq<char> {
    if b.len() == 0 {
        "stored pending media retry missing optional i64 tag"@
    } else if b[0] == 1 {
        "stored pending media retry has truncated i64"@
    } else {
        "stored pending media retry has invalid optional i64 tag "@ + crate::text::decimal_chars(b[0] as nat)
    }
}

#[verifier::opaque]
pub open spec fn key_fault(b: Seq<u8>) -> Seq<char> {
    match take_str(b) {
        None => str_fault(b),
        Some((_, r1)) => match take_str(r1) {
            None => str_fault(r1),
            Some((_, r2)) => opt_str_fault(r2),
        },
    }
}

#[verifier::opaque]
pub open spec fn media_fault(b: Seq<u8>) -> Seq<char> {
    match take_opt_str(b) {
        None => opt_str_fault(b),
        Some((_, r1)) => match take_opt_str(r1) {
            None => opt_str_fault(r1),
            Some((_, r2)) => match take_field(r2) {
                None => field_fault(r2),
                Some((_, r3)) => match take_field(r3) {
                    None => field_fault(r3),
                    Some((_, r4)) => match take_field(r4) {
                        None => field_fault(r4),
                        Some((_, r5)) => match take_u64(r5) {
                            None => "stored pending media retry has truncated file length"@,
                            Some((_, r6)) => opt_i64_fault(r6),
                        },
                    },
                },
            },
        },
    }
}

pub open spec fn tail_fault(b: Seq<u8>) -> Seq<char> {
    if b.len() == 0 {
        "stored pending media retry missing media kind"@
    } else if kind_of_id(b[0]).is_none() {
        "stored pending media retry has invalid media kind "@ + crate::text::decimal_chars(b[0] as nat)
    } else if take_opt_str(b.skip(1)).is_none() {
        opt_str_fault(b.skip(1))
    } else {
        "stored pending media retry has "@ + crate::text::decimal_chars(
            take_opt_str(b.skip(1)).unwrap().1.len(),
        ) + " trailing bytes"@
    }
}

/// The text of the error for bytes that are not a record.
pub open spec fn record_fault(b: Seq<u8>) -> Seq<char> {
    if b.len() > MAX_STORED_PENDING_MEDIA_RETRY_RECORD_BYTES {
        "stored pending media retry record exceeds 8388608 bytes"@
    } else if b.len() < 5 {
        "stored pending media retry record is truncated"@
    } else if b.take(4) != record_magic() {
        "stored pending media retry record has invalid magic"@
    } else if b[4] != STORED_PENDING_MEDIA_RETRY_VERSION {
        "unsupported stored pending media retry version: "@ + crate::text::decimal_chars(b[4] as nat)
    } else {
        match take_key(b.skip(5)) {
            None => key_fault(b.skip(5)),
            Some((_, r1)) => match take_media(r1) {
                None => media_fault(r1),
                Some((_, r2)) => tail_fault(r2),
            },
        }
    }
}

// ---------------------------------------------------------------------------
// Reading back what was written.
// ---------------------------------------------------------------------------

proof fn lemma_take_u32(x: u32, rest: Seq<u8>)
    ensures
        be_u32(x).len() == 4,
        take_u32(be_u32(x) + rest) == Some((x, rest)),
{
    lemma_auto_spec_u32_to_from_le_bytes();
    let s = be_u32(x) + rest;
    assert(s.take(4) == be_u32(x));
    assert(be_u32(x).reverse() == spec_u32_to_le_bytes(x));
    assert(s.skip(4) == rest);
}

proof fn lemma_take_u64(x: u64, rest: Seq<u8>)
    ensures
        be_u64(x).len() == 8,
        take_u64(be_u64(x) + rest) == Some((x, rest)),
{
    lemma_auto_spec_u64_to_from_le_bytes();
    let s = be_u64(x) + rest;
    assert(s.take(8) == be_u64(x));
    assert(be_u64(x).reverse() == spec_u64_to_le_bytes(x));
    assert(s.skip(8) == rest);
}

proof fn lemma_take_field(f: Seq<u8>, rest: Seq<u8>)
    requires
        fits(f),
    ensures
        take_field(field(f) + rest) == Some((f, rest)),
{
    lemma_take_u32(f.len() as u32, f + rest);
    assert(field(f) + rest == be_u32(f.len() as u32) + (f + rest));
    assert((f + rest).take(f.len() as int) == f);
    assert((f + rest).skip(f.len() as int) == rest);
}

proof fn lemma_take_str(s: Seq<char>, rest: Seq<u8>)
    requires
        str_fits(s),
    ensures
        take_str(str_field(s) + rest) == Some((s, rest)),
{
    lemma_take_field(encode_utf8(s), rest);
    encode_utf8_valid_utf8(s);
    encode_utf8_decode_utf8(s);
}

proof fn lemma_take_opt_str(o: Option<Seq<char>>, rest: Seq<u8>)
    requires
        opt_str_fits(o),
    ensures
        take_opt_str(opt_str_field(o) + rest) == Some((o, rest)),
{
    let b = opt_str_field(o) + rest;
    match o {
        None => {
            assert(b.skip(1) == rest);
        },
        Some(s) => {
            assert(b.skip(1) == str_field(s) + rest);
            lemma_take_str(s, rest);
        },
    }
}

proof fn lemma_take_opt_i64(o: Option<i64>, rest: Seq<u8>)
    ensures
        take_opt_i64(opt_i64_field(o) + rest) == Some((o, rest)),
{
    let b = opt_i64_field(o) + rest;
    match o {
        None => {
            assert(b.skip(1) == rest);
        },
        Some(v) => {
            assert(b.skip(1) == be_u64(v as u64) + rest);
            lemma_take_u64(v as u64, rest);
            assert((v as u64) as i64 == v) by (bit_vector);
        },
    }
}

proof fn lemma_take_key(k: EventKeyView, rest: Seq<u8>)
    requires
        str_fits(k.remote_jid),
        str_fits(k.id),
        opt_str_fits(k.participant),
    ensures
        take_key(key_bytes(k) + rest) == Some((k, rest)),
{
    reveal(take_key);
    let r2 = opt_str_field(k.participant) + rest;
    let r1 = str_field(k.id) + r2;
    assert(key_bytes(k) + rest == str_field(k.remote_jid) + r1);
    lemma_take_str(k.remote_jid, r1);
    lemma_take_str(k.id, r2);
    lemma_take_opt_str(k.participant, rest);
}

#[verifier::rlimit(40)]
#[verifier::spinoff_prover]
proof fn lemma_take_media(m: UploadedMediaView, rest: Seq<u8>)
    requires
        opt_str_fits(m.url),
        opt_str_fits(m.direct_path),
        fits(m.media_key),
        fits(m.file_sha256),
        fits(m.file_enc_sha256),
    ensures
        take_media(media_bytes(m) + rest) == Some((m, rest)),
{
    reveal(take_media);
    let r6 = opt_i64_field(m.media_key_timestamp) + rest;
    let r5 = be_u64(m.file_length) + r6;
    let r4 = field(m.file_enc_sha256) + r5;
    let r3 = field(m.file_sha256) + r4;
    let r2 = field(m.media_key) + r3;
    let r1 = opt_str_field(m.direct_path) + r2;
    assert(media_bytes(m) + rest == opt_str_field(m.url) + r1);
    lemma_take_opt_str(m.url, r1);
    lemma_take_opt_str(m.direct_path, r2);
    lemma_take_field(m.media_key, r3);
    lemma_take_field(m.file_sha256, r4);
    lemma_take_field(m.file_enc_sha256, r5);
    lemma_take_u64(m.file_length, r6);
    lemma_take_opt_i64(m.media_key_timestamp, rest);
}

proof fn lemma_opt_str_field_len(o: Option<Seq<char>>)
    requires
        opt_str_fits(o),
    ensures
        opt_str_field(o).len() <= 65_541,
{
    lemma_auto_spec_u32_to_from_le_bytes();
}

proof fn lemma_record_len(e: PendingEntryView)
    requires
        entry_fits(e),
    ensures
        record_bytes(e).len() <= MAX_STORED_PENDING_MEDIA_RETRY_RECORD_BYTES,
{
    lemma_auto_spec_u32_to_from_le_bytes();
    lemma_auto_spec_u64_to_from_le_bytes();
    lemma_opt_str_field_len(Some(e.key.remote_jid));
    lemma_opt_str_field_len(Some(e.key.id));
    lemma_opt_str_field_len(e.key.participant);
    lemma_opt_str_field_len(e.pending.media.url);
    lemma_opt_str_field_len(e.pending.media.direct_path);
    lemma_opt_str_field_len(e.pending.fallback_host);
}

/// Decoding a stored record gives back exactly the entry that was encoded.
#[verifier::rlimit(50)]
pub proof fn lemma_record_round_trip(e: PendingEntryView)
    requires
        entry_fits(e),
    ensures
        parse_record(record_bytes(e)) == Some(e),
{
    let b = record_bytes(e);
    lemma_record_len(e);
    let tail = seq![kind_id(e.pending.kind)] + opt_str_field(e.pending.fallback_host);
    let r1 = media_bytes(e.pending.media) + tail;
    assert(b.take(4) == record_magic());
    assert(b[4] == STORED_PENDING_MEDIA_RETRY_VERSION);
    assert(b.skip(5) == key_bytes(e.key) + r1);
    lemma_take_key(e.key, r1);
    lemma_take_media(e.pending.media, tail);
    crate::media::lemma_kind_id_round_trip(e.pending.kind, 0);
    assert(tail.skip(1) == opt_str_field(e.pending.fallback_host) + Seq::<u8>::empty());
    lemma_take_opt_str(e.pending.fallback_host, Seq::empty());
}

/// A stored record followed by anything more is not a record: trailing
/// bytes are refused.
pub proof fn lemma_record_with_trailing_bytes(e: PendingEntryView, extra: Seq<u8>)
    requires
        entry_fits(e),
        extra.len() > 0,
    ensures
        parse_record(record_bytes(e) + extra).is_none(),
{
    let b = record_bytes(e) + extra;
    if b.len() <= MAX_STORED_PENDING_MEDIA_RETRY_RECORD_BYTES {
        let tail = seq![kind_id(e.pending.kind)] + (opt_str_field(e.pending.fallback_host) + extra);
        let r1 = media_bytes(e.pending.media) + tail;
        assert(b.take(4) == record_magic());
        assert(b[4] == STORED_PENDING_MEDIA_RETRY_VERSION);
        assert(b.skip(5) == key_bytes(e.key) + r1);
        lemma_take_key(e.key, r1);
        lemma_take_media(e.pending.media, tail);
        crate::media::lemma_kind_id_round_trip(e.pending.kind, 0);
        assert(tail.skip(1) == opt_str_field(e.pending.fallback_host) + extra);
        lemma_take_opt_str(e.pending.fallback_host, extra);
    }
}

// ---------------------------------------------------------------------------
// Writing.
// ---------------------------------------------------------------------------

fn push_slice(out: &mut Vec<u8>, b: &[u8])
    ensures
        final(out)@ == old(out)@ + b@,
{
    let mut i: usize = 0;
    while i < b.len()
        invariant
            0 <= i <= b@.len(),
            out@ == old(out)@ + b@.take(i as int),
        decreases b@.len() - i,
    {
        out.push(b[i]);
        assert(b@.take(i as int + 1) == b@.take(i as int).push(b@[i as int]));
        i = i + 1;
    }
    assert(b@.take(b@.len() as int) == b@);
}

fn put_u32(out: &mut Vec<u8>, x: u32)
    ensures
        final(out)@ == old(out)@ + be_u32(x),
{
    let le = u32_to_le_bytes(x);
    out.push(le[3]);
    out.push(le[2]);
    out.push(le[1]);
    out.push(le[0]);
    assert(seq![le@[3], le@[2], le@[1], le@[0]] == le@.reverse());
}

fn put_u64(out: &mut Vec<u8>, x: u64)
    ensures
        final(out)@ == old(out)@ + be_u64(x),
{
    let le = u64_to_le_bytes(x);
    out.push(le[7]);
    out.push(le[6]);
    out.push(le[5]);
    out.push(le[4]);
    out.push(le[3]);
    out.push(le[2]);
    out.push(le[1]);
    out.push(le[0]);
    assert(seq![le@[7], le@[6], le@[5], le@[4], le@[3], le@[2], le@[1], le@[0]] == le@.reverse());
}

/// The text of the error for a field longer than the format allows.
pub open spec fn too_long_text() -> Seq<char> {
    "stored pending media retry field exceeds 65536 bytes"@
}

fn field_too_long() -> (e: CoreError)
    ensures
        e matches CoreError::Protocol(m) && m@ == too_long_text(),
{
    crate::error::protocol("stored pending media retry field exceeds 65536 bytes")
}

fn put_bytes(out: &mut Vec<u8>, value: &[u8]) -> (r: CoreResult<()>)
    ensures
        match r {
            Ok(_) => fits(value@) && final(out)@ == old(out)@ + field(value@),
            Err(e) => (e matches CoreError::Protocol(m) && m@ == too_long_text()) && !fits(value@),
        },
{
    if value.len() > MAX_STORED_PENDING_MEDIA_RETRY_FIELD_BYTES {
        return Err(field_too_long());
    }
    put_u32(out, value.len() as u32);
    push_slice(out, value);
    assert(old(out)@ + be_u32(value@.len() as u32) + value@ == old(out)@ + field(value@));
    Ok(())
}

fn put_string(out: &mut Vec<u8>, value: &str) -> (r: CoreResult<()>)
    ensures
        match r {
            Ok(_) => str_fits(value@) && final(out)@ == old(out)@ + str_field(value@),
            Err(e) => (e matches CoreError::Protocol(m) && m@ == too_long_text()) && !str_fits(value@),
        },
{
    put_bytes(out, value.as_bytes())
}

pub open spec fn opt_str_view(o: Option<&str>) -> Option<Seq<char>> {
    match o {
        Some(s) => Some(s@),
        None => None,
    }
}

fn as_opt_str(o: &Option<String>) -> (r: Option<&str>)
    ensures
        opt_str_view(r) == opt_view(*o),
{
    match o {
        Some(s) => Some(s.as_str()),
        None => None,
    }
}

fn put_optional_string(out: &mut Vec<u8>, value: Option<&str>) -> (r: CoreResult<()>)
    ensures
        match r {
            Ok(_) => opt_str_fits(opt_str_view(value)) && final(out)@ == old(out)@ + opt_str_field(
                opt_str_view(value),
            ),
            Err(e) => (e matches CoreError::Protocol(m) && m@ == too_long_text()) && !opt_str_fits(opt_str_view(value)),
        },
{
    match value {
        Some(v) => {
            out.push(1);
            let ghost mid = out@;
            put_string(out, v)?;
            assert(mid == old(out)@ + seq![1u8]);
            assert(out@ == old(out)@ + (seq![1u8] + str_field(v@)));
            Ok(())
        },
        None => {
            out.push(0);
            assert(out@ == old(out)@ + seq![0u8]);
            Ok(())
        },
    }
}

fn put_optional_i64(out: &mut Vec<u8>, value: Option<i64>)
    ensures
        final(out)@ == old(out)@ + opt_i64_field(value),
{
    match value {
        Some(v) => {
            out.push(1);
            put_u64(out, v as u64);
            assert(out@ == old(out)@ + (seq![1u8] + be_u64(v as u64)));
        },
        None => {
            out.push(0);
            assert(out@ == old(out)@ + seq![0u8]);
        },
    }
}

fn put_media_retry_key(out: &mut Vec<u8>, key: &MessageEventKey) -> (r: CoreResult<()>)
    ensures
        match r {
            Ok(_) => {
                &&& str_fits(key@.remote_jid)
                &&& str_fits(key@.id)
                &&& opt_str_fits(key@.participant)
                &&& final(out)@ == old(out)@ + key_bytes(key@)
            },
            Err(e) => (e matches CoreError::Protocol(m) && m@ == too_long_text()) && !(str_fits(key@.remote_jid) && str_fits(key@.id)
                && opt_str_fits(key@.participant)),
        },
{
    put_string(out, key.remote_jid.as_str())?;
    put_string(out, key.id.as_str())?;
    put_optional_string(out, as_opt_str(&key.participant))?;
    assert(out@ == old(out)@ + key_bytes(key@));
    Ok(())
}

pub open spec fn media_fits(m: UploadedMediaView) -> bool {
    &&& opt_str_fits(m.url)
    &&& opt_str_fits(m.direct_path)
    &&& fits(m.media_key)
    &&& fits(m.file_sha256)
    &&& fits(m.file_enc_sha256)
}

proof fn lemma_append_nested(
    o: Seq<u8>,
    a: Seq<u8>,
    b: Seq<u8>,
    c: Seq<u8>,
    d: Seq<u8>,
    e: Seq<u8>,
    f: Seq<u8>,
    g: Seq<u8>,
)
    ensures
        o + (a + (b + (c + (d + (e + (f + g)))))) == o + a + b + c + d + e + f + g,
{
    let t6 = f + g;
    let t5 = e + t6;
    let t4 = d + t5;
    let t3 = c + t4;
    let t2 = b + t3;
    let t1 = a + t2;
    assert(o + t1 == (o + a) + t2);
    assert((o + a) + t2 == (o + a + b) + t3);
    assert((o + a + b) + t3 == (o + a + b + c) + t4);
    assert((o + a + b + c) + t4 == (o + a + b + c + d) + t5);
    assert((o + a + b + c + d) + t5 == (o + a + b + c + d + e) + t6);
    assert((o + a + b + c + d + e) + t6 == o + a + b + c + d + e + f + g);
}

fn put_uploaded_media(out: &mut Vec<u8>, media: &UploadedMedia) -> (r: CoreResult<()>)
    ensures
        match r {
            Ok(_) => media_fits(media@) && final(out)@ == old(out)@ + media_bytes(media@),
            Err(e) => (e matches CoreError::Protocol(m) && m@ == too_long_text()) && !media_fits(media@),
        },
{
    let ghost o = out@;
    put_optional_string(out, as_opt_str(&media.url))?;
    let ghost o1 = out@;
    put_optional_string(out, as_opt_str(&media.direct_path))?;
    let ghost o2 = out@;
    put_bytes(out, media.media_key.as_slice())?;
    let ghost o3 = out@;
    put_bytes(out, media.file_sha256.as_slice())?;
    let ghost o4 = out@;
    put_bytes(out, media.file_enc_sha256.as_slice())?;
    let ghost o5 = out@;
    put_u64(out, media.file_length);
    let ghost o6 = out@;
    put_optional_i64(out, media.media_key_timestamp);
    proof {
        let m = media@;
        lemma_append_nested(
            o,
            opt_str_field(m.url),
            opt_str_field(m.direct_path),
            field(m.media_key),
            field(m.file_sha256),
            field(m.file_enc_sha256),
            be_u64(m.file_length),
            opt_i64_field(m.media_key_timestamp),
        );
    }
    Ok(())
}

/// Encodes pending media for storage. Refused (as a payload error) when the
/// entry is not valid, and (as a protocol error) when one of its fields is
/// longer than the format allows.
pub fn encode_stored_pending_media_retry(entry: &MediaRetryPendingEntry) -> (r: CoreResult<Vec<u8>>)
    ensures
        match r {
            Ok(b) => entry_valid(entry@) && entry_fits(entry@) && b@ == record_bytes(entry@),
            Err(e) => if entry_valid(entry@) {
                !entry_fits(entry@) && (e matches CoreError::Protocol(m) && m@ == too_long_text())
            } else {
                e matches CoreError::Payload(m) && m@ == crate::media::retry_entry_fault(
                    entry@.key,
                    entry@.pending,
                )
            },
        },
{
    validate_media_retry_key(&entry.key)?;
    validate_pending_media_retry(&entry.pending)?;
    let mut out: Vec<u8> = Vec::new();
    out.push(0x70);
    out.push(0x6d);
    out.push(0x72);
    out.push(0x31);
    out.push(STORED_PENDING_MEDIA_RETRY_VERSION);
    let ghost head = out@;
    assert(head == record_magic() + seq![STORED_PENDING_MEDIA_RETRY_VERSION]);
    put_media_retry_key(&mut out, &entry.key)?;
    put_uploaded_media(&mut out, &entry.pending.media)?;
    out.push(media_kind_cache_id(entry.pending.kind));
    let ghost before_host = out@;
    put_optional_string(&mut out, as_opt_str(&entry.pending.fallback_host))?;
    proof {
        let e = entry@;
        assert(before_host == head + key_bytes(e.key) + media_bytes(e.pending.media) + seq![
            kind_id(e.pending.kind),
        ]);
        assert(out@ == record_bytes(e));
    }
    Ok(out)
}

// ---------------------------------------------------------------------------
// Reading.
// ---------------------------------------------------------------------------

/// Decodes UTF-8 bytes into a string (`String::from_utf8`): it succeeds
/// exactly when the bytes are valid UTF-8, and the string holds those bytes.
#[verifier::external_body]
fn string_from_utf8(bytes: Vec<u8>) -> (r: Option<String>)
    ensures
        match r {
            Some(s) => valid_utf8(bytes@) && encode_utf8(s@) == bytes@,
            None => !valid_utf8(bytes@),
        },
{
    String::from_utf8(bytes).ok()
}

fn read_u32(value: &[u8], pos: usize) -> (r: Option<(u32, usize)>)
    requires
        pos <= value@.len(),
    ensures
        match r {
            Some((n, q)) => pos <= q <= value@.len() && take_u32(value@.skip(pos as int)) == Some(
                (n, value@.skip(q as int)),
            ),
            None => take_u32(value@.skip(pos as int)).is_none(),
        },
{
    if value.len() - pos < 4 {
        return None;
    }
    let mut le: Vec<u8> = Vec::new();
    le.push(value[pos + 3]);
    le.push(value[pos + 2]);
    le.push(value[pos + 1]);
    le.push(value[pos]);
    assert(le@ == value@.skip(pos as int).take(4).reverse());
    let n = u32_from_le_bytes(le.as_slice());
    assert(value@.skip(pos as int).skip(4) == value@.skip(pos + 4));
    Some((n, pos + 4))
}

fn read_u64(value: &[u8], pos: usize) -> (r: Option<(u64, usize)>)
    requires
        pos <= value@.len(),
    ensures
        match r {
            Some((n, q)) => pos <= q <= value@.len() && take_u64(value@.skip(pos as int)) == Some(
                (n, value@.skip(q as int)),
            ),
            None => take_u64(value@.skip(pos as int)).is_none(),
        },
{
    if value.len() - pos < 8 {
        return None;
    }
    let mut le: Vec<u8> = Vec::new();
    le.push(value[pos + 7]);
    le.push(value[pos + 6]);
    le.push(value[pos + 5]);
    le.push(value[pos + 4]);
    le.push(value[pos + 3]);
    le.push(value[pos + 2]);
    le.push(value[pos + 1]);
    le.push(value[pos]);
    assert(le@ == value@.skip(pos as int).take(8).reverse());
    let n = u64_from_le_bytes(le.as_slice());
    assert(value@.skip(pos as int).skip(8) == value@.skip(pos + 8));
    Some((n, pos + 8))
}

fn read_bytes(value: &[u8], pos: usize) -> (r: CoreResult<(Vec<u8>, usize)>)
    requires
        pos <= value@.len(),
    ensures
        match r {
            Ok((b, q)) => pos <= q <= value@.len() && take_field(value@.skip(pos as int)) == Some(
                (b@, value@.skip(q as int)),
            ),
            Err(e) => take_field(value@.skip(pos as int)).is_none() && (e matches CoreError::Protocol(m) && m@
                == field_fault(value@.skip(pos as int))),
        },
{
    let (n, start) = match read_u32(value, pos) {
        Some(x) => x,
        None => {
            return Err(crate::error::protocol("stored pending media retry missing byte length"));
        },
    };
    let len = n as usize;
    if len > MAX_STORED_PENDING_MEDIA_RETRY_FIELD_BYTES {
        return Err(field_too_long());
    }
    if value.len() - start < len {
        return Err(crate::error::protocol("stored pending media retry field is truncated"));
    }
    let b = crate::media::retry_store::sub_bytes(value, start, start + len);
    assert(value@.skip(start as int).take(len as int) == value@.subrange(
        start as int,
        start + len,
    ));
    assert(value@.skip(start as int).skip(len as int) == value@.skip(start + len));
    Ok((b, start + len))
}

/// The bytes `v[from..to]` as a new vector.
pub(crate) fn sub_bytes(v: &[u8], from: usize, to: usize) -> (out: Vec<u8>)
    requires
        from <= to <= v@.len(),
    ensures
        out@ == v@.subrange(from as int, to as int),
{
    let mut out: Vec<u8> = Vec::new();
    let mut i = from;
    while i < to
        invariant
            from <= i <= to <= v@.len(),
            out@ == v@.subrange(from as int, i as int),
        decreases to - i,
    {
        out.push(v[i]);
        i = i + 1;
    }
    out
}

fn read_string(value: &[u8], pos: usize) -> (r: CoreResult<(String, usize)>)
    requires
        pos <= value@.len(),
    ensures
        match r {
            Ok((s, q)) => pos <= q <= value@.len() && take_str(value@.skip(pos as int)) == Some(
                (s@, value@.skip(q as int)),
            ),
            Err(e) => take_str(value@.skip(pos as int)).is_none() && (e matches CoreError::Protocol(m) && m@
                == str_fault(value@.skip(pos as int))),
        },
{
    let (b, q) = read_bytes(value, pos)?;
    let ghost bytes = b@;
    match string_from_utf8(b) {
        Some(s) => {
            proof {
                encode_utf8_decode_utf8(s@);
            }
            Ok((s, q))
        },
        None => Err(crate::error::protocol("stored pending media retry contains invalid UTF-8")),
    }
}

fn read_optional_string(value: &[u8], pos: usize) -> (r: CoreResult<(Option<String>, usize)>)
    requires
        pos <= value@.len(),
    ensures
        match r {
            Ok((s, q)) => pos <= q <= value@.len() && take_opt_str(value@.skip(pos as int)) == Some(
                (opt_view(s), value@.skip(q as int)),
            ),
            Err(e) => take_opt_str(value@.skip(pos as int)).is_none() && (e matches CoreError::Protocol(m) && m@
                == opt_str_fault(value@.skip(pos as int))),
        },
{
    if pos >= value.len() {
        return Err(
            crate::error::protocol("stored pending media retry missing optional string tag"),
        );
    }
    let tag = value[pos];
    assert(value@.skip(pos as int)[0] == tag);
    assert(value@.skip(pos as int).skip(1) == value@.skip(pos + 1));
    if tag == 0 {
        Ok((None, pos + 1))
    } else if tag == 1 {
        let (s, q) = read_string(value, pos + 1)?;
        Ok((Some(s), q))
    } else {
        let t = crate::text::u64_to_string(tag as u64);
        Err(
            CoreError::Protocol(
                concat2("stored pending media retry has invalid optional string tag ", t.as_str()),
            ),
        )
    }
}

fn read_optional_i64(value: &[u8], pos: usize) -> (r: CoreResult<(Option<i64>, usize)>)
    requires
        pos <= value@.len(),
    ensures
        match r {
            Ok((v, q)) => pos <= q <= value@.len() && take_opt_i64(value@.skip(pos as int)) == Some(
                (v, value@.skip(q as int)),
            ),
            Err(e) => take_opt_i64(value@.skip(pos as int)).is_none() && (e matches CoreError::Protocol(m) && m@
                == opt_i64_fault(value@.skip(pos as int))),
        },
{
    if pos >= value.len() {
        return Err(crate::error::protocol("stored pending media retry missing optional i64 tag"));
    }
    let tag = value[pos];
    assert(value@.skip(pos as int)[0] == tag);
    assert(value@.skip(pos as int).skip(1) == value@.skip(pos + 1));
    if tag == 0 {
        Ok((None, pos + 1))
    } else if tag == 1 {
        match read_u64(value, pos + 1) {
            Some((n, q)) => Ok((Some(n as i64), q)),
            None => Err(crate::error::protocol("stored pending media retry has truncated i64")),
        }
    } else {
        let t = crate::text::u64_to_string(tag as u64);
        Err(
            CoreError::Protocol(
                concat2("stored pending media retry has invalid optional i64 tag ", t.as_str()),
            ),
        )
    }
}

fn read_media_retry_key(value: &[u8], pos: usize) -> (r: CoreResult<(MessageEventKey, usize)>)
    requires
        pos <= value@.len(),
    ensures
        match r {
            Ok((k, q)) => pos <= q <= value@.len() && take_key(value@.skip(pos as int)) == Some(
                (k@, value@.skip(q as int)),
            ),
            Err(e) => take_key(value@.skip(pos as int)).is_none() && (e matches CoreError::Protocol(m) && m@
                == key_fault(value@.skip(pos as int))),
        },
{
    proof {
        reveal(take_key);
        reveal(key_fault);
    }
    let (remote_jid, p1) = read_string(value, pos)?;
    let (id, p2) = read_string(value, p1)?;
    let (participant, p3) = read_optional_string(value, p2)?;
    Ok((MessageEventKey { remote_jid, id, participant }, p3))
}

fn read_uploaded_media(value: &[u8], pos: usize) -> (r: CoreResult<(UploadedMedia, usize)>)
    requires
        pos <= value@.len(),
    ensures
        match r {
            Ok((m, q)) => pos <= q <= value@.len() && take_media(value@.skip(pos as int)) == Some(
                (m@, value@.skip(q as int)),
            ),
            Err(e) => take_media(value@.skip(pos as int)).is_none() && (e matches CoreError::Protocol(m) && m@
                == media_fault(value@.skip(pos as int))),
        },
{
    proof {
        reveal(take_media);
        reveal(media_fault);
    }
    let (url, p1) = read_optional_string(value, pos)?;
    let (direct_path, p2) = read_optional_string(value, p1)?;
    let (media_key, p3) = read_bytes(value, p2)?;
    let (file_sha256, p4) = read_bytes(value, p3)?;
    let (file_enc_sha256, p5) = read_bytes(value, p4)?;
    let (file_length, p6) = match read_u64(value, p5) {
        Some(x) => x,
        None => {
            return Err(
                crate::error::protocol("stored pending media retry has truncated file length"),
            );
        },
    };
    let (media_key_timestamp, p7) = read_optional_i64(value, p6)?;
    Ok(
        (
            UploadedMedia {
                url,
                direct_path,
                media_key,
                file_sha256,
                file_enc_sha256,
                file_length,
                media_key_timestamp,
            },
            p7,
        ),
    )
}

fn validate_stored_pending_media_retry_len(value: &[u8]) -> (r: CoreResult<()>)
    ensures
        match r {
            Ok(_) => value@.len() <= MAX_STORED_PENDING_MEDIA_RETRY_RECORD_BYTES,
            Err(e) => value@.len() > MAX_STORED_PENDING_MEDIA_RETRY_RECORD_BYTES && (e matches CoreError::Protocol(
                m,
            ) && m@ == record_fault(value@)),
        },
{
    if value.len() > MAX_STORED_PENDING_MEDIA_RETRY_RECORD_BYTES {
        return Err(
            crate::error::protocol("stored pending media retry record exceeds 8388608 bytes"),
        );
    }
    Ok(())
}

fn read_stored_pending_media_retry_magic(value: &[u8]) -> (r: CoreResult<usize>)
    ensures
        match r {
            Ok(p) => p == 5 && value@.len() >= 5 && value@.take(4) == record_magic() && value@[4]
                == STORED_PENDING_MEDIA_RETRY_VERSION,
            Err(e) => !(value@.len() >= 5 && value@.take(4) == record_magic() && value@[4]
                == STORED_PENDING_MEDIA_RETRY_VERSION) && (value@.len()
                <= MAX_STORED_PENDING_MEDIA_RETRY_RECORD_BYTES ==> (e matches CoreError::Protocol(m)
                && m@ == record_fault(value@))),
        },
{
    if value.len() < 5 {
        return Err(crate::error::protocol("stored pending media retry record is truncated"));
    }
    if !(value[0] == 0x70 && value[1] == 0x6d && value[2] == 0x72 && value[3] == 0x31) {
        assert(value@.take(4)[0] == value@[0]);
        assert(value@.take(4)[1] == value@[1]);
        assert(value@.take(4)[2] == value@[2]);
        assert(value@.take(4)[3] == value@[3]);
        return Err(crate::error::protocol("stored pending media retry record has invalid magic"));
    }
    assert(value@.take(4) == record_magic());
    let version = value[4];
    if version != STORED_PENDING_MEDIA_RETRY_VERSION {
        let v = crate::text::u64_to_string(version as u64);
        return Err(
            CoreError::Protocol(
                concat2("unsupported stored pending media retry version: ", v.as_str()),
            ),
        );
    }
    Ok(5)
}

fn reject_trailing_pending_media_retry_bytes(value: &[u8], pos: usize) -> (r: CoreResult<()>)
    requires
        pos <= value@.len(),
    ensures
        match r {
            Ok(_) => pos == value@.len(),
            Err(e) => pos < value@.len() && (e matches CoreError::Protocol(m) && m@
                == "stored pending media retry has "@ + crate::text::decimal_chars((value@.len() - pos) as nat)
                + " trailing bytes"@),
        },
{
    if pos == value.len() {
        return Ok(());
    }
    let n = crate::text::u64_to_string((value.len() - pos) as u64);
    let m = concat2("stored pending media retry has ", n.as_str());
    Err(CoreError::Protocol(concat2(m.as_str(), " trailing bytes")))
}

/// Decodes a stored record of pending media. Bytes that are not a record are
/// refused as a protocol error; a record whose entry is not valid is refused
/// as a payload error.
#[verifier::rlimit(50)]
pub fn decode_stored_pending_media_retry(value: &[u8]) -> (r: CoreResult<MediaRetryPendingEntry>)
    ensures
        match r {
            Ok(e) => parse_record(value@) == Some(e@) && entry_valid(e@),
            Err(err) => match parse_record(value@) {
                None => err matches CoreError::Protocol(m) && m@ == record_fault(value@),
                Some(v) => !entry_valid(v) && (err matches CoreError::Payload(m) && m@
                    == crate::media::retry_entry_fault(v.key, v.pending)),
            },
        },
{
    validate_stored_pending_media_retry_len(value)?;
    let p0 = read_stored_pending_media_retry_magic(value)?;
    let (key, p1) = read_media_retry_key(value, p0)?;
    let (media, p2) = read_uploaded_media(value, p1)?;
    assert(value@.skip(p1 as int) == value@.skip(p1 as int));
    if p2 >= value.len() {
        return Err(crate::error::protocol("stored pending media retry missing media kind"));
    }
    let ghost r2 = value@.skip(p2 as int);
    assert(r2[0] == value@[p2 as int]);
    assert(r2.skip(1) == value@.skip(p2 + 1));
    let kind = media_kind_from_cache_id(value[p2])?;
    let (fallback_host, p3) = read_optional_string(value, p2 + 1)?;
    reject_trailing_pending_media_retry_bytes(value, p3)?;
    assert(value@.skip(p3 as int).len() == 0);
    let pending = PendingMediaRetry { media, kind, fallback_host };
    validate_media_retry_key(&key)?;
    validate_pending_media_retry(&pending)?;
    Ok(MediaRetryPendingEntry { key, pending })
}

} // verus!
