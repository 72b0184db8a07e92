//! Recent stickers of a history payload.

use crate::error::CoreResult;
use crate::history::processing::{
    as_opt_str, capacity_text, fields_view, opt_bool, opt_number, opt_text, push_bool, push_field,
    push_number, push_text, refusal_of, FieldView, Refusal,
};
use crate::history::{bytes_to_hex, ensure_capacity, history_recent_sticker_id, lower_hex_text, opt_bytes, sticker_id};
use crate::text::{opt_view, owned, signed_decimal};
use vstd::prelude::*;

verus! {

/// A recent sticker of a history payload, as plain values. Its weight is
/// held as the decimal text of the number the payload gives.
#[derive(Clone, Debug, PartialEq, Eq)]
pub struct HistoryStickerMetadata {
    pub url: Option<String>,
    pub file_sha256: Option<Vec<u8>>,
    pub file_enc_sha256: Option<Vec<u8>>,
    pub media_key: Option<Vec<u8>>,
    pub mimetype: Option<String>,
    pub height: Option<u32>,
    pub width: Option<u32>,
    pub direct_path: Option<String>,
    pub file_length: Option<u64>,
    pub weight_text: Option<String>,
    pub last_sticker_sent_ts: Option<i64>,
    pub is_lottie: Option<bool>,
    pub image_hash: Option<String>,
    pub is_avatar_sticker: Option<bool>,
}

/// The record of a recent sticker: its id, its hashes and key when given
/// and not empty, and its fields.
#[derive(Clone, Debug, PartialEq, Eq)]
pub struct HistoryStickerEvent {
    pub id: String,
    pub file_sha256: Option<Vec<u8>>,
    pub file_enc_sha256: Option<Vec<u8>>,
    pub media_key: Option<Vec<u8>>,
    pub fields: Vec<(String, String)>,
}

pub type StickerView = (Seq<char>, Option<Seq<u8>>, Option<Seq<u8>>, Option<Seq<u8>>, Seq<FieldView>);

pub open spec fn bytes_view(o: Option<Vec<u8>>) -> Option<Seq<u8>> {
    match o {
        Some(b) => Some(b@),
        None => None,
    }
}

pub open spec fn sticker_view(e: HistoryStickerEvent) -> StickerView {
    (e.id@, bytes_view(e.file_sha256), bytes_view(e.file_enc_sha256), bytes_view(e.media_key), fields_view(e.fields@))
}

pub open spec fn sticker_views(v: Seq<HistoryStickerEvent>) -> Seq<StickerView> {
    v.map_values(|e: HistoryStickerEvent| sticker_view(e))
}

/// Some bytes when given and not empty.
pub open spec fn non_empty_bytes(o: Option<Vec<u8>>) -> Option<Seq<u8>> {
    match o {
        Some(b) => if b@.len() > 0 {
            Some(b@)
        } else {
            None
        },
        None => None,
    }
}

pub open spec fn hex_field(key: Seq<char>, b: Option<Seq<u8>>) -> Seq<FieldView> {
    match b {
        Some(v) => seq![(key, lower_hex_text(v))],
        None => Seq::empty(),
    }
}

pub open spec fn widen_u32(v: Option<u32>) -> Option<u64> {
    match v {
        Some(n) => Some(n as u64),
        None => None,
    }
}

/// The fields of the record of a recent sticker.
pub open spec fn sticker_fields(s: HistoryStickerMetadata) -> Seq<FieldView> {
    seq![("source"@, "history_recent_sticker"@)] + hex_field("file_sha256_hex"@, non_empty_bytes(s.file_sha256))
        + hex_field("file_enc_sha256_hex"@, non_empty_bytes(s.file_enc_sha256)) + opt_text("url"@, opt_view(s.url))
        + opt_text("mimetype"@, opt_view(s.mimetype)) + opt_text("direct_path"@, opt_view(s.direct_path)) + opt_text(
        "image_hash"@,
        opt_view(s.image_hash),
    ) + opt_number("height"@, widen_u32(s.height)) + opt_number("width"@, widen_u32(s.width)) + opt_number(
        "file_length"@,
        s.file_length,
    ) + match s.last_sticker_sent_ts {
        Some(t) => seq![("last_sticker_sent_ts"@, signed_decimal(t as int))],
        None => Seq::empty(),
    } + opt_bool("is_lottie"@, s.is_lottie) + opt_bool("is_avatar_sticker"@, s.is_avatar_sticker) + match opt_view(
        s.weight_text,
    ) {
        Some(w) => seq![("weight"@, w)],
        None => Seq::empty(),
    }
}

/// The record of a recent sticker: none when nothing identifies it.
pub open spec fn sticker_event_of(s: HistoryStickerMetadata) -> Option<StickerView> {
    match sticker_id(
        bytes_view(s.file_sha256),
        bytes_view(s.file_enc_sha256),
        opt_view(s.direct_path),
        opt_view(s.image_hash),
        opt_view(s.url),
    ) {
        None => None,
        Some(id) => Some(
            (
                id,
                non_empty_bytes(s.file_sha256),
                non_empty_bytes(s.file_enc_sha256),
                non_empty_bytes(s.media_key),
                sticker_fields(s),
            ),
        ),
    }
}

fn as_opt_bytes(o: &Option<Vec<u8>>) -> (r: Option<&[u8]>)
    ensures
        opt_bytes(r) == bytes_view(*o),
{
    match o {
        Some(b) => Some(b.as_slice()),
        None => None,
    }
}

fn non_empty_copy(o: &Option<Vec<u8>>) -> (r: Option<Vec<u8>>)
    ensures
        bytes_view(r) == non_empty_bytes(*o),
{
    match o {
        Some(b) => if b.len() > 0 {
            Some(crate::text::copy_bytes(b.as_slice()))
        } else {
            None
        },
        None => None,
    }
}

fn push_hex(f: &mut Vec<(String, String)>, key: &str, b: &Option<Vec<u8>>)
    ensures
        fields_view(final(f)@) == fields_view(old(f)@) + hex_field(key@, non_empty_bytes(*b)),
{
    if let Some(b) = b {
        if b.len() > 0 {
            push_field(f, key, bytes_to_hex(b.as_slice()));
        }
    }
    assert(fields_view(f@) =~= fields_view(old(f)@) + hex_field(key@, non_empty_bytes(*b)));
}

fn sticker_record_fields(s: &HistoryStickerMetadata) -> (f: Vec<(String, String)>)
    ensures
        fields_view(f@) == sticker_fields(*s),
{
    let mut f: Vec<(String, String)> = Vec::new();
    push_field(&mut f, "source", owned("history_recent_sticker"));
    push_hex(&mut f, "file_sha256_hex", &s.file_sha256);
    push_hex(&mut f, "file_enc_sha256_hex", &s.file_enc_sha256);
    push_text(&mut f, "url", as_opt_str(&s.url));
    push_text(&mut f, "mimetype", as_opt_str(&s.mimetype));
    push_text(&mut f, "direct_path", as_opt_str(&s.direct_path));
    push_text(&mut f, "image_hash", as_opt_str(&s.image_hash));
    push_number(&mut f, "height", match s.height {
        Some(n) => Some(n as u64),
        None => None,
    });
    push_number(&mut f, "width", match s.width {
        Some(n) => Some(n as u64),
        None => None,
    });
    push_number(&mut f, "file_length", s.file_length);
    let ghost before_ts = fields_view(f@);
    if let Some(t) = s.last_sticker_sent_ts {
        push_field(&mut f, "last_sticker_sent_ts", crate::text::i64_to_string(t));
    }
    assert(fields_view(f@) =~= before_ts + match s.last_sticker_sent_ts {
        Some(t) => seq![("last_sticker_sent_ts"@, signed_decimal(t as int))],
        None => Seq::<FieldView>::empty(),
    });
    push_bool(&mut f, "is_lottie", s.is_lottie);
    push_bool(&mut f, "is_avatar_sticker", s.is_avatar_sticker);
    if let Some(w) = &s.weight_text {
        push_field(&mut f, "weight", crate::text::clone_string(w));
    }
    assert(fields_view(f@) =~= sticker_fields(*s));
    f
}

/// The record of a recent sticker, when something identifies it.
pub fn history_recent_sticker_event(s: &HistoryStickerMetadata) -> (r: Option<HistoryStickerEvent>)
    ensures
        match r {
            Some(e) => sticker_event_of(*s) == Some(sticker_view(e)),
            None => sticker_event_of(*s) is None,
        },
{
    let id = match history_recent_sticker_id(
        as_opt_bytes(&s.file_sha256),
        as_opt_bytes(&s.file_enc_sha256),
        as_opt_str(&s.direct_path),
        as_opt_str(&s.image_hash),
        as_opt_str(&s.url),
    ) {
        Some(id) => id,
        None => return None,
    };
    let fields = sticker_record_fields(s);
    Some(
        HistoryStickerEvent {
            id,
            file_sha256: non_empty_copy(&s.file_sha256),
            file_enc_sha256: non_empty_copy(&s.file_enc_sha256),
            media_key: non_empty_copy(&s.media_key),
            fields,
        },
    )
}

/// The records of the recent stickers after those already `done`, each
/// under the limit `max`, or the first refusal.
pub open spec fn fold_stickers(done: Seq<StickerView>, ss: Seq<HistoryStickerMetadata>, max: nat) -> Result<
    Seq<StickerView>,
    Refusal,
>
    decreases ss.len(),
{
    if ss.len() == 0 {
        Ok(done)
    } else {
        match fold_stickers(done, ss.drop_last(), max) {
            Err(e) => Err(e),
            Ok(d) => match sticker_event_of(ss.last()) {
                None => Ok(d),
                Some(v) => if d.len() >= max {
                    Err((true, capacity_text("history recent stickers"@, d.len(), max)))
                } else {
                    Ok(d.push(v))
                },
            },
        }
    }
}

proof fn lemma_fold_stickers_err(done: Seq<StickerView>, ss: Seq<HistoryStickerMetadata>, max: nat, j: int, f: Refusal)
    requires
        0 <= j <= ss.len(),
        fold_stickers(done, ss.take(j), max) == Err::<Seq<StickerView>, Refusal>(f),
    ensures
        fold_stickers(done, ss, max) == Err::<Seq<StickerView>, Refusal>(f),
    decreases ss.len() - j,
{
    if j == ss.len() {
        assert(ss.take(j) == ss);
    } else {
        assert(ss.take(j + 1).drop_last() == ss.take(j));
        lemma_fold_stickers_err(done, ss, max, j + 1, f);
    }
}

/// Adds the record of each recent sticker that something identifies, in
/// order, under the limit `max_stickers`.
pub fn push_history_recent_sticker_events(
    stickers: &mut Vec<HistoryStickerEvent>,
    records: &[HistoryStickerMetadata],
    max_stickers: usize,
) -> (r: CoreResult<()>)
    ensures
        match fold_stickers(sticker_views(old(stickers)@), records@, max_stickers as nat) {
            Ok(v) => r is Ok && sticker_views(final(stickers)@) == v,
            Err(f) => r matches Err(e) && refusal_of(e) == f && (e is Payload || e is Protocol),
        },
{
    let ghost start = sticker_views(stickers@);
    let mut i: usize = 0;
    assert(records@.take(0) =~= Seq::<HistoryStickerMetadata>::empty());
    while i < records.len()
        invariant
            0 <= i <= records@.len(),
            start == sticker_views(old(stickers)@),
            fold_stickers(start, records@.take(i as int), max_stickers as nat) == Ok::<Seq<StickerView>, Refusal>(
                sticker_views(stickers@),
            ),
        decreases records@.len() - i,
    {
        let ghost t = records@.take(i as int + 1);
        assert(t.drop_last() == records@.take(i as int));
        assert(t.last() == records@[i as int]);
        if let Some(ev) = history_recent_sticker_event(&records[i]) {
            match ensure_capacity(stickers.len(), max_stickers, "history recent stickers") {
                Ok(_) => {},
                Err(e) => {
                    proof {
                        lemma_fold_stickers_err(start, records@, max_stickers as nat, i as int + 1, refusal_of(e));
                    }
                    return Err(e);
                },
            }
            let ghost before = stickers@;
            stickers.push(ev);
            assert(sticker_views(stickers@) =~= sticker_views(before).push(sticker_view(ev)));
        }
        i = i + 1;
    }
    assert(records@.take(i as int) == records@);
    Ok(())
}

} // verus!
