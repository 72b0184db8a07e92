//! Past participants of groups in a history payload: who left or was
//! removed, and when.

use crate::error::{CoreError, CoreResult};
use crate::history::processing::{
    capacity_text, fields_view, push_field, record_view, records_view, refusal_of, FieldView, HistoryRecord,
    RecordView, Refusal,
};
use crate::history::{ensure_capacity, history_jid_fault, validate_history_jid};
use crate::jid::jid_valid;
use crate::text::{concat2, concat3, decimal_chars, opt_view, owned};
use vstd::prelude::*;

verus! {

/// A past participant of a group: its JID, why it left and when.
#[derive(Clone, Debug, PartialEq, Eq)]
pub struct HistoryPastParticipant {
    pub user_jid: Option<String>,
    pub leave_reason: Option<i32>,
    pub leave_ts: Option<u64>,
}

/// The past participants of a group.
#[derive(Clone, Debug, PartialEq, Eq)]
pub struct HistoryPastParticipants {
    pub group_jid: Option<String>,
    pub past_participants: Vec<HistoryPastParticipant>,
}

/// A past participant as values: JID, reason name and time.
pub type EntryView = (Seq<char>, Seq<char>, Option<u64>);

/// The name of a leave reason: `LEFT`, `REMOVED`, else `UNKNOWN`.
pub open spec fn leave_reason_name(v: Option<i32>) -> Seq<char> {
    match v {
        Some(0) => "LEFT"@,
        Some(1) => "REMOVED"@,
        _ => "UNKNOWN"@,
    }
}

fn leave_reason_text(v: Option<i32>) -> (s: String)
    ensures
        s@ == leave_reason_name(v),
{
    match v {
        Some(0) => owned("LEFT"),
        Some(1) => owned("REMOVED"),
        _ => owned("UNKNOWN"),
    }
}

/// The entry of a past participant, or why it is refused.
pub open spec fn entry_of(p: HistoryPastParticipant) -> Result<EntryView, Seq<char>> {
    match opt_view(p.user_jid) {
        Some(j) => if j.len() == 0 {
            Err("history past participant missing JID"@)
        } else if !jid_valid(j) {
            Err(history_jid_fault("history past participant JID"@, j))
        } else {
            Ok((j, leave_reason_name(p.leave_reason), p.leave_ts))
        },
        None => Err("history past participant missing JID"@),
    }
}

/// The entries of the past participants of a group, after `count` others
/// of the payload, under the limit `max`, or the first refusal.
pub open spec fn fold_entries(count: nat, ps: Seq<HistoryPastParticipant>, max: nat) -> Result<Seq<EntryView>, Refusal>
    decreases ps.len(),
{
    if ps.len() == 0 {
        Ok(Seq::empty())
    } else {
        match fold_entries(count, ps.drop_last(), max) {
            Err(e) => Err(e),
            Ok(es) => if count + es.len() >= max {
                Err((true, capacity_text("history past participants"@, count + es.len(), max)))
            } else {
                match entry_of(ps.last()) {
                    Err(m) => Err((false, m)),
                    Ok(e) => Ok(es.push(e)),
                }
            },
        }
    }
}

/// Texts joined by commas.
pub open spec fn join_texts(v: Seq<Seq<char>>) -> Seq<char>
    decreases v.len(),
{
    if v.len() == 0 {
        Seq::empty()
    } else if v.len() == 1 {
        v[0]
    } else {
        join_texts(v.drop_last()) + ","@ + v.last()
    }
}

/// Whether an entry belongs to an action: 0 leave (`LEFT`), 1 remove
/// (`REMOVED`), else past (any other reason).
pub open spec fn in_action(action: int, reason: Seq<char>) -> bool {
    if action == 0 {
        reason == "LEFT"@
    } else if action == 1 {
        reason == "REMOVED"@
    } else {
        reason != "LEFT"@ && reason != "REMOVED"@
    }
}

pub open spec fn stamp(e: EntryView) -> Seq<char> {
    e.0 + "="@ + decimal_chars(e.2.unwrap() as nat)
}

/// The JIDs of the entries of an action, in order.
pub open spec fn action_jids(es: Seq<EntryView>, action: int) -> Seq<Seq<char>>
    decreases es.len(),
{
    if es.len() == 0 {
        Seq::empty()
    } else {
        action_jids(es.drop_last(), action) + if in_action(action, es.last().1) {
            seq![es.last().0]
        } else {
            Seq::empty()
        }
    }
}

/// `jid=time` of the entries of an action that have a time, in order;
/// action -1 takes every entry.
pub open spec fn action_stamps(es: Seq<EntryView>, action: int) -> Seq<Seq<char>>
    decreases es.len(),
{
    if es.len() == 0 {
        Seq::empty()
    } else {
        action_stamps(es.drop_last(), action) + if (action == -1 || in_action(action, es.last().1))
            && es.last().2 is Some {
            seq![stamp(es.last())]
        } else {
            Seq::empty()
        }
    }
}

/// `jid=reason` of every entry, in order.
pub open spec fn entry_reasons(es: Seq<EntryView>) -> Seq<Seq<char>>
    decreases es.len(),
{
    if es.len() == 0 {
        Seq::empty()
    } else {
        entry_reasons(es.drop_last()).push(es.last().0 + "="@ + es.last().1)
    }
}

/// The fields of an action: its JIDs, their number and their times.
pub open spec fn action_fields(es: Seq<EntryView>, action: int, prefix: Seq<char>) -> Seq<FieldView> {
    let jids = action_jids(es, action);
    let stamps = action_stamps(es, action);
    if jids.len() == 0 {
        Seq::empty()
    } else {
        seq![(prefix, join_texts(jids)), (prefix + "_count"@, decimal_chars(jids.len()))] + if stamps.len() > 0 {
            seq![(prefix + "_timestamps"@, join_texts(stamps))]
        } else {
            Seq::empty()
        }
    }
}

/// The fields of the group record of past participants with entries `es`.
pub open spec fn past_fields(es: Seq<EntryView>) -> Seq<FieldView> {
    seq![("source"@, "history_past_participants"@), ("past_participants_count"@, decimal_chars(es.len()))]
        + action_fields(es, 0, "participants_leave"@) + action_fields(es, 1, "participants_remove"@)
        + action_fields(es, 2, "participants_past"@) + (if entry_reasons(es).len() > 0 {
        seq![("past_participant_reasons"@, join_texts(entry_reasons(es)))]
    } else {
        Seq::empty()
    }) + if action_stamps(es, -1).len() > 0 {
        seq![("past_participant_timestamps"@, join_texts(action_stamps(es, -1)))]
    } else {
        Seq::empty()
    }
}

pub type Entry = (String, String, Option<u64>);

pub open spec fn entry_views(v: Seq<Entry>) -> Seq<EntryView> {
    v.map_values(|e: Entry| (e.0@, e.1@, e.2))
}

fn past_entry(p: &HistoryPastParticipant) -> (r: CoreResult<Entry>)
    ensures
        match r {
            Ok(e) => entry_of(*p) == Ok::<EntryView, Seq<char>>((e.0@, e.1@, e.2)),
            Err(e) => e is Protocol && entry_of(*p) == Err::<EntryView, Seq<char>>(e.detail()),
        },
{
    let j = match &p.user_jid {
        Some(j) if !j.as_str().is_empty() => j,
        _ => return Err(CoreError::Protocol(owned("history past participant missing JID"))),
    };
    match validate_history_jid("history past participant JID", j.as_str()) {
        Ok(_) => {},
        Err(e) => return Err(e),
    }
    Ok((crate::text::clone_string(j), leave_reason_text(p.leave_reason), p.leave_ts))
}

proof fn lemma_fold_entries_err(count: nat, ps: Seq<HistoryPastParticipant>, max: nat, j: int, f: Refusal)
    requires
        0 <= j <= ps.len(),
        fold_entries(count, ps.take(j), max) == Err::<Seq<EntryView>, Refusal>(f),
    ensures
        fold_entries(count, ps, max) == Err::<Seq<EntryView>, Refusal>(f),
    decreases ps.len() - j,
{
    if j == ps.len() {
        assert(ps.take(j) == ps);
    } else {
        assert(ps.take(j + 1).drop_last() == ps.take(j));
        lemma_fold_entries_err(count, ps, max, j + 1, f);
    }
}

fn past_entries(count: usize, ps: &[HistoryPastParticipant], max: usize) -> (r: CoreResult<Vec<Entry>>)
    ensures
        match fold_entries(count as nat, ps@, max as nat) {
            Ok(es) => r matches Ok(v) && entry_views(v@) == es && (ps@.len() > 0 ==> count + ps@.len() <= max),
            Err(f) => r matches Err(e) && refusal_of(e) == f && (e is Payload || e is Protocol),
        },
{
    let mut out: Vec<Entry> = Vec::new();
    let mut i: usize = 0;
    assert(ps@.take(0) =~= Seq::<HistoryPastParticipant>::empty());
    assert(entry_views(out@) =~= Seq::<EntryView>::empty());
    while i < ps.len()
        invariant
            0 <= i <= ps@.len(),
            i > 0 ==> count + i <= max,
            out@.len() == i,
            fold_entries(count as nat, ps@.take(i as int), max as nat) == Ok::<Seq<EntryView>, Refusal>(
                entry_views(out@),
            ),
        decreases ps@.len() - i,
    {
        let ghost t = ps@.take(i as int + 1);
        assert(t.drop_last() == ps@.take(i as int));
        assert(t.last() == ps@[i as int]);
        let current: usize = if i == 0 {
            count
        } else {
            count + i
        };
        match ensure_capacity(current, max, "history past participants") {
            Ok(_) => {},
            Err(e) => {
                proof {
                    lemma_fold_entries_err(count as nat, ps@, max as nat, i as int + 1, refusal_of(e));
                }
                return Err(e);
            },
        }
        match past_entry(&ps[i]) {
            Ok(e) => {
                let ghost before = out@;
                out.push(e);
                assert(entry_views(out@) =~= entry_views(before).push((e.0@, e.1@, e.2)));
            },
            Err(e) => {
                proof {
                    lemma_fold_entries_err(count as nat, ps@, max as nat, i as int + 1, refusal_of(e));
                }
                return Err(e);
            },
        }
        i = i + 1;
    }
    assert(ps@.take(i as int) == ps@);
    Ok(out)
}

fn joined(v: &Vec<String>) -> (s: String)
    ensures
        s@ == join_texts(crate::inbound::string_views(v@)),
{
    let mut acc = String::new();
    let mut i: usize = 0;
    while i < v.len()
        invariant
            0 <= i <= v@.len(),
            acc@ == join_texts(crate::inbound::string_views(v@.take(i as int))),
        decreases v@.len() - i,
    {
        let ghost t = crate::inbound::string_views(v@.take(i as int + 1));
        assert(t.drop_last() =~= crate::inbound::string_views(v@.take(i as int)));
        assert(t.last() == v@[i as int]@);
        if i == 0 {
            acc = crate::text::clone_string(&v[0]);
        } else {
            let with_comma = concat2(acc.as_str(), ",");
            acc = concat2(with_comma.as_str(), v[i].as_str());
        }
        i = i + 1;
    }
    assert(v@.take(i as int) == v@);
    acc
}

fn in_action_exec(action: i8, reason: &str) -> (b: bool)
    ensures
        b == in_action(action as int, reason@),
{
    let left = crate::text::str_eq(reason, "LEFT");
    let removed = crate::text::str_eq(reason, "REMOVED");
    if action == 0 {
        left
    } else if action == 1 {
        removed
    } else {
        !left && !removed
    }
}

fn stamp_text(e: &Entry, t: u64) -> (s: String)
    requires
        e.2 == Some(t),
    ensures
        s@ == stamp((e.0@, e.1@, e.2)),
{
    let n = crate::text::u64_to_string(t);
    concat3(e.0.as_str(), "=", n.as_str())
}

fn collect_action_jids(es: &Vec<Entry>, action: i8) -> (out: Vec<String>)
    ensures
        crate::inbound::string_views(out@) == action_jids(entry_views(es@), action as int),
{
    let mut out: Vec<String> = Vec::new();
    let mut i: usize = 0;
    assert(crate::inbound::string_views(out@) =~= Seq::<Seq<char>>::empty());
    while i < es.len()
        invariant
            0 <= i <= es@.len(),
            crate::inbound::string_views(out@) == action_jids(entry_views(es@.take(i as int)), action as int),
        decreases es@.len() - i,
    {
        let ghost t = entry_views(es@.take(i as int + 1));
        assert(t.drop_last() =~= entry_views(es@.take(i as int)));
        assert(t.last() == (es@[i as int].0@, es@[i as int].1@, es@[i as int].2));
        if in_action_exec(action, es[i].1.as_str()) {
            out.push(crate::text::clone_string(&es[i].0));
        }
        assert(crate::inbound::string_views(out@) =~= action_jids(t, action as int));
        i = i + 1;
    }
    assert(es@.take(i as int) == es@);
    out
}

fn collect_action_stamps(es: &Vec<Entry>, action: i8) -> (out: Vec<String>)
    ensures
        crate::inbound::string_views(out@) == action_stamps(entry_views(es@), action as int),
{
    let mut out: Vec<String> = Vec::new();
    let mut i: usize = 0;
    assert(crate::inbound::string_views(out@) =~= Seq::<Seq<char>>::empty());
    while i < es.len()
        invariant
            0 <= i <= es@.len(),
            crate::inbound::string_views(out@) == action_stamps(entry_views(es@.take(i as int)), action as int),
        decreases es@.len() - i,
    {
        let ghost t = entry_views(es@.take(i as int + 1));
        assert(t.drop_last() =~= entry_views(es@.take(i as int)));
        assert(t.last() == (es@[i as int].0@, es@[i as int].1@, es@[i as int].2));
        let taken = action == -1 || in_action_exec(action, es[i].1.as_str());
        if taken {
            if let Some(ts) = es[i].2 {
                out.push(stamp_text(&es[i], ts));
            }
        }
        assert(crate::inbound::string_views(out@) =~= action_stamps(t, action as int));
        i = i + 1;
    }
    assert(es@.take(i as int) == es@);
    out
}

fn collect_reasons(es: &Vec<Entry>) -> (out: Vec<String>)
    ensures
        crate::inbound::string_views(out@) == entry_reasons(entry_views(es@)),
{
    let mut out: Vec<String> = Vec::new();
    let mut i: usize = 0;
    assert(crate::inbound::string_views(out@) =~= Seq::<Seq<char>>::empty());
    while i < es.len()
        invariant
            0 <= i <= es@.len(),
            crate::inbound::string_views(out@) == entry_reasons(entry_views(es@.take(i as int))),
        decreases es@.len() - i,
    {
        let ghost t = entry_views(es@.take(i as int + 1));
        assert(t.drop_last() =~= entry_views(es@.take(i as int)));
        assert(t.last() == (es@[i as int].0@, es@[i as int].1@, es@[i as int].2));
        out.push(concat3(es[i].0.as_str(), "=", es[i].1.as_str()));
        assert(crate::inbound::string_views(out@) =~= entry_reasons(t));
        i = i + 1;
    }
    assert(es@.take(i as int) == es@);
    out
}

fn push_action_fields(f: &mut Vec<(String, String)>, es: &Vec<Entry>, action: i8, prefix: &str)
    ensures
        fields_view(final(f)@) == fields_view(old(f)@) + action_fields(entry_views(es@), action as int, prefix@),
{
    let jids = collect_action_jids(es, action);
    if jids.len() > 0 {
        push_field(f, prefix, joined(&jids));
        let count_key = concat2(prefix, "_count");
        push_field(f, count_key.as_str(), crate::text::u64_to_string(jids.len() as u64));
        let stamps = collect_action_stamps(es, action);
        if stamps.len() > 0 {
            let stamps_key = concat2(prefix, "_timestamps");
            push_field(f, stamps_key.as_str(), joined(&stamps));
        }
    }
    assert(fields_view(f@) =~= fields_view(old(f)@) + action_fields(entry_views(es@), action as int, prefix@));
}

fn past_record_fields(es: &Vec<Entry>) -> (f: Vec<(String, String)>)
    ensures
        fields_view(f@) == past_fields(entry_views(es@)),
{
    let mut f: Vec<(String, String)> = Vec::new();
    push_field(&mut f, "source", owned("history_past_participants"));
    push_field(&mut f, "past_participants_count", crate::text::u64_to_string(es.len() as u64));
    push_action_fields(&mut f, es, 0, "participants_leave");
    push_action_fields(&mut f, es, 1, "participants_remove");
    push_action_fields(&mut f, es, 2, "participants_past");
    let reasons = collect_reasons(es);
    if reasons.len() > 0 {
        push_field(&mut f, "past_participant_reasons", joined(&reasons));
    }
    let stamps = collect_action_stamps(es, -1);
    if stamps.len() > 0 {
        push_field(&mut f, "past_participant_timestamps", joined(&stamps));
    }
    assert(fields_view(f@) =~= past_fields(entry_views(es@)));
    f
}

/// The group record of past participants after `count` others of the
/// payload, and the count after them; none when there are none.
pub open spec fn past_event_of(count: nat, r: HistoryPastParticipants, max: nat) -> Result<
    (Option<RecordView>, nat),
    Refusal,
> {
    if r.past_participants@.len() == 0 {
        Ok((None, count))
    } else {
        match opt_view(r.group_jid) {
            Some(g) => if g.len() == 0 {
                Err((false, "history past participants missing group JID"@))
            } else if !jid_valid(g) {
                Err((false, history_jid_fault("history past participant group JID"@, g)))
            } else {
                match fold_entries(count, r.past_participants@, max) {
                    Err(e) => Err(e),
                    Ok(es) => Ok((Some((g, past_fields(es))), count + es.len())),
                }
            },
            None => Err((false, "history past participants missing group JID"@)),
        }
    }
}

/// The group record of past participants, counting them in
/// `participant_count` under the limit `max_participants`.
pub fn history_past_participants_event(
    r: &HistoryPastParticipants,
    max_participants: usize,
    participant_count: &mut usize,
) -> (res: CoreResult<Option<HistoryRecord>>)
    ensures
        match past_event_of(*old(participant_count) as nat, *r, max_participants as nat) {
            Ok((v, c)) => res matches Ok(o) && *final(participant_count) == c && match o {
                Some(rec) => v == Some(record_view(rec)),
                None => v is None,
            },
            Err(f) => res matches Err(e) && refusal_of(e) == f && (e is Payload || e is Protocol),
        },
{
    if r.past_participants.len() == 0 {
        return Ok(None);
    }
    let g = match &r.group_jid {
        Some(g) if !g.as_str().is_empty() => g,
        _ => return Err(CoreError::Protocol(owned("history past participants missing group JID"))),
    };
    match validate_history_jid("history past participant group JID", g.as_str()) {
        Ok(_) => {},
        Err(e) => return Err(e),
    }
    let es = match past_entries(*participant_count, r.past_participants.as_slice(), max_participants) {
        Ok(es) => es,
        Err(e) => return Err(e),
    };
    *participant_count = *participant_count + es.len();
    let fields = past_record_fields(&es);
    Ok(Some(HistoryRecord { id: crate::text::clone_string(g), fields }))
}

/// The group records of the past participants of a payload after those
/// already `done`, each under the limit `max_groups`, with `count`
/// participants counted so far, or the first refusal.
pub open spec fn fold_past(
    done: Seq<RecordView>,
    count: nat,
    records: Seq<HistoryPastParticipants>,
    max_groups: nat,
    max_participants: nat,
) -> Result<(Seq<RecordView>, nat), Refusal>
    decreases records.len(),
{
    if records.len() == 0 {
        Ok((done, count))
    } else {
        match fold_past(done, count, records.drop_last(), max_groups, max_participants) {
            Err(e) => Err(e),
            Ok((d, c)) => match past_event_of(c, records.last(), max_participants) {
                Err(e) => Err(e),
                Ok((None, c2)) => Ok((d, c2)),
                Ok((Some(v), c2)) => if d.len() >= max_groups {
                    Err((true, capacity_text("history past participant groups"@, d.len(), max_groups)))
                } else {
                    Ok((d.push(v), c2))
                },
            },
        }
    }
}

proof fn lemma_fold_past_err(
    done: Seq<RecordView>,
    count: nat,
    records: Seq<HistoryPastParticipants>,
    max_groups: nat,
    max_participants: nat,
    j: int,
    f: Refusal,
)
    requires
        0 <= j <= records.len(),
        fold_past(done, count, records.take(j), max_groups, max_participants) == Err::<(Seq<RecordView>, nat), Refusal>(f),
    ensures
        fold_past(done, count, records, max_groups, max_participants) == Err::<(Seq<RecordView>, nat), Refusal>(f),
    decreases records.len() - j,
{
    if j == records.len() {
        assert(records.take(j) == records);
    } else {
        assert(records.take(j + 1).drop_last() == records.take(j));
        lemma_fold_past_err(done, count, records, max_groups, max_participants, j + 1, f);
    }
}

/// Adds the group record of the past participants of each group, in
/// order, under the limits on groups and on participants.
pub fn push_history_past_participant_events(
    groups: &mut Vec<HistoryRecord>,
    records: &[HistoryPastParticipants],
    max_groups: usize,
    max_participants: usize,
) -> (r: CoreResult<()>)
    ensures
        match fold_past(records_view(old(groups)@), 0, records@, max_groups as nat, max_participants as nat) {
            Ok((v, _)) => r is Ok && records_view(final(groups)@) == v,
            Err(f) => r matches Err(e) && refusal_of(e) == f && (e is Payload || e is Protocol),
        },
{
    let ghost start = records_view(groups@);
    let mut count: usize = 0;
    let mut i: usize = 0;
    assert(records@.take(0) =~= Seq::<HistoryPastParticipants>::empty());
    while i < records.len()
        invariant
            0 <= i <= records@.len(),
            start == records_view(old(groups)@),
            fold_past(start, 0, records@.take(i as int), max_groups as nat, max_participants as nat) == Ok::<
                (Seq<RecordView>, nat),
                Refusal,
            >((records_view(groups@), count as nat)),
        decreases records@.len() - i,
    {
        let ghost t = records@.take(i as int + 1);
        assert(t.drop_last() == records@.take(i as int));
        assert(t.last() == records@[i as int]);
        let event = match history_past_participants_event(&records[i], max_participants, &mut count) {
            Ok(e) => e,
            Err(e) => {
                proof {
                    lemma_fold_past_err(
                        start,
                        0,
                        records@,
                        max_groups as nat,
                        max_participants as nat,
                        i as int + 1,
                        refusal_of(e),
                    );
                }
                return Err(e);
            },
        };
        if let Some(ev) = event {
            match ensure_capacity(groups.len(), max_groups, "history past participant groups") {
                Ok(_) => {},
                Err(e) => {
                    proof {
                        lemma_fold_past_err(
                            start,
                            0,
                            records@,
                            max_groups as nat,
                            max_participants as nat,
                            i as int + 1,
                            refusal_of(e),
                        );
                    }
                    return Err(e);
                },
            }
            let ghost before = groups@;
            groups.push(ev);
            assert(records_view(groups@) =~= records_view(before).push(record_view(ev)));
        }
        i = i + 1;
    }
    assert(records@.take(i as int) == records@);
    Ok(())
}

} // verus!
