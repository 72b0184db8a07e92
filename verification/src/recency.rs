//! A bounded map whose entries expire a fixed time after they were stored
//! and which, when full, drops the entry used least recently. Entries are
//! kept in key order. Time is handed in by the caller in milliseconds.

use vstd::prelude::*;

verus! {

/// The result of comparing two keys.
#[derive(Clone, Copy, Debug, PartialEq, Eq, Structural)]
pub enum KeyOrder {
    Less,
    Equal,
    Greater,
}

/// Keys with a strict total order on their views.
pub trait RecencyKey: View + Sized {
    spec fn key_lt(a: Self::V, b: Self::V) -> bool;

    proof fn lemma_key_order(a: Self::V, b: Self::V, c: Self::V)
        ensures
            !Self::key_lt(a, a),
            Self::key_lt(a, b) && Self::key_lt(b, c) ==> Self::key_lt(a, c),
            a == b || Self::key_lt(a, b) || Self::key_lt(b, a),
    ;

    fn compare_key(&self, other: &Self) -> (r: KeyOrder)
        ensures
            (r == KeyOrder::Less) == Self::key_lt(self@, other@),
            (r == KeyOrder::Equal) == (self@ == other@),
            (r == KeyOrder::Greater) == Self::key_lt(other@, self@),
    ;

    fn copy_key(&self) -> (r: Self)
        ensures
            r@ == self@,
    ;
}

/// Values that can be handed out as copies.
pub trait RecencyValue: View + Sized {
    fn copy_value(&self) -> (r: Self)
        ensures
            r@ == self@,
    ;
}

/// One entry: key, value, when it was stored and when it was last used.
pub struct Slot<K, V> {
    pub key: K,
    pub value: V,
    pub stored_at_ms: u64,
    pub last_accessed_ms: u64,
}

impl<K: View, V: View> Slot<K, V> {
    pub open spec fn view(&self) -> (K::V, V::V, u64, u64) {
        (self.key@, self.value@, self.stored_at_ms, self.last_accessed_ms)
    }
}

/// The views of a run of slots.
pub open spec fn slot_views<K: View, V: View>(s: Seq<Slot<K, V>>) -> Seq<(K::V, V::V, u64, u64)> {
    s.map_values(|e: Slot<K, V>| e.view())
}

/// Entries in strictly increasing key order (so no key occurs twice).
pub open spec fn sorted<K: RecencyKey, VV>(s: Seq<(K::V, VV, u64, u64)>) -> bool {
    forall|i: int, j: int| 0 <= i < j < s.len() ==> K::key_lt(#[trigger] s[i].0, #[trigger] s[j].0)
}

/// An entry stored at `stored` is still alive at `now`: less than `ttl`
/// milliseconds have passed (none, when the clock went back).
pub open spec fn alive(stored: u64, now: u64, ttl: u64) -> bool {
    (if now >= stored {
        now - stored
    } else {
        0
    }) < ttl
}

/// The entries still alive at `now`, in order.
pub open spec fn live<KV, VV>(s: Seq<(KV, VV, u64, u64)>, now: u64, ttl: u64) -> Seq<(KV, VV, u64, u64)>
    decreases s.len(),
{
    if s.len() == 0 {
        s
    } else if alive(s.last().2, now, ttl) {
        live(s.drop_last(), now, ttl).push(s.last())
    } else {
        live(s.drop_last(), now, ttl)
    }
}

/// Position of the entry with key `k`, or -1.
pub open spec fn find_key<KV, VV>(s: Seq<(KV, VV, u64, u64)>, k: KV) -> int
    decreases s.len(),
{
    if s.len() == 0 {
        -1
    } else if s.last().0 == k {
        s.len() - 1
    } else {
        find_key(s.drop_last(), k)
    }
}

/// How many entries have a key below `k`: where `k` goes in key order.
pub open spec fn count_below<K: RecencyKey, VV>(s: Seq<(K::V, VV, u64, u64)>, k: K::V) -> int
    decreases s.len(),
{
    if s.len() == 0 {
        0
    } else {
        count_below::<K, VV>(s.drop_last(), k) + if K::key_lt(s.last().0, k) {
            1int
        } else {
            0
        }
    }
}

/// `a` was used before `b` (ties broken by key).
pub open spec fn used_before<K: RecencyKey, VV>(a: (K::V, VV, u64, u64), b: (K::V, VV, u64, u64)) -> bool {
    a.3 < b.3 || (a.3 == b.3 && K::key_lt(a.0, b.0))
}

/// Position of the least recently used entry.
pub open spec fn lru_index<K: RecencyKey, VV>(s: Seq<(K::V, VV, u64, u64)>) -> int
    decreases s.len(),
{
    if s.len() <= 1 {
        0
    } else {
        let b = lru_index::<K, VV>(s.drop_last());
        if used_before::<K, VV>(s.last(), s[b]) {
            s.len() - 1
        } else {
            b
        }
    }
}

/// `s` with the entry `(k, v, now, now)` stored: replacing the entry with key
/// `k`, or placed in key order.
pub open spec fn upsert<K: RecencyKey, VV>(s: Seq<(K::V, VV, u64, u64)>, k: K::V, v: VV, now: u64) -> Seq<
    (K::V, VV, u64, u64),
> {
    let e = (k, v, now, now);
    if find_key(s, k) >= 0 {
        s.update(find_key(s, k), e)
    } else {
        s.insert(count_below::<K, VV>(s, k), e)
    }
}

/// `s` without its least recently used entry when it holds more than `cap`.
pub open spec fn evict_over<K: RecencyKey, VV>(s: Seq<(K::V, VV, u64, u64)>, cap: nat) -> Seq<
    (K::V, VV, u64, u64),
> {
    if s.len() > cap {
        s.remove(lru_index::<K, VV>(s))
    } else {
        s
    }
}

/// The map of keys to values and times that a run of entries holds.
pub open spec fn entry_of<KV, VV>(s: Seq<(KV, VV, u64, u64)>, k: KV) -> Option<(VV, u64, u64)> {
    let i = find_key(s, k);
    if i >= 0 {
        Some((s[i].1, s[i].2, s[i].3))
    } else {
        None
    }
}


// ---------------------------------------------------------------------------
// Facts about entry runs.
// ---------------------------------------------------------------------------

/// Every entry still alive was an entry before, at a position no earlier.
pub proof fn lemma_live_sub<KV, VV>(s: Seq<(KV, VV, u64, u64)>, now: u64, ttl: u64, j: int)
    requires
        0 <= j < live(s, now, ttl).len(),
    ensures
        exists|i: int| j <= i < s.len() && live(s, now, ttl)[j] == s[i],
        live(s, now, ttl).len() <= s.len(),
    decreases s.len(),
{
    let l = live(s, now, ttl);
    let d = live(s.drop_last(), now, ttl);
    if alive(s.last().2, now, ttl) {
        if j < d.len() {
            lemma_live_sub(s.drop_last(), now, ttl, j);
            let i = choose|i: int| j <= i < s.drop_last().len() && d[j] == s.drop_last()[i];
            assert(l[j] == s[i]);
        } else {
            lemma_live_len(s.drop_last(), now, ttl);
            assert(l[j] == s[s.len() - 1]);
        }
    } else {
        lemma_live_sub(s.drop_last(), now, ttl, j);
        let i = choose|i: int| j <= i < s.drop_last().len() && d[j] == s.drop_last()[i];
        assert(l[j] == s[i]);
    }
    lemma_live_len(s, now, ttl);
}

pub proof fn lemma_live_len<KV, VV>(s: Seq<(KV, VV, u64, u64)>, now: u64, ttl: u64)
    ensures
        live(s, now, ttl).len() <= s.len(),
    decreases s.len(),
{
    if s.len() > 0 {
        lemma_live_len(s.drop_last(), now, ttl);
    }
}

/// What is still alive of an ordered run is still in order.
pub proof fn lemma_live_sorted<K: RecencyKey, VV>(s: Seq<(K::V, VV, u64, u64)>, now: u64, ttl: u64)
    requires
        sorted::<K, VV>(s),
    ensures
        sorted::<K, VV>(live(s, now, ttl)),
    decreases s.len(),
{
    if s.len() > 0 {
        let d = s.drop_last();
        assert(sorted::<K, VV>(d));
        lemma_live_sorted::<K, VV>(d, now, ttl);
        if alive(s.last().2, now, ttl) {
            let l = live(s, now, ttl);
            let ld = live(d, now, ttl);
            assert forall|i: int, j: int| 0 <= i < j < l.len() implies K::key_lt(
                #[trigger] l[i].0,
                #[trigger] l[j].0,
            ) by {
                if j < ld.len() {
                    assert(l[i] == ld[i] && l[j] == ld[j]);
                } else {
                    lemma_live_sub(d, now, ttl, i);
                    let k = choose|k: int| i <= k < d.len() && ld[i] == d[k];
                    assert(l[i] == s[k]);
                    assert(l[j] == s[s.len() - 1]);
                }
            }
        }
    }
}

/// In an ordered run, the entry at position `i` is the one with its key.
pub proof fn lemma_find_key_at<K: RecencyKey, VV>(s: Seq<(K::V, VV, u64, u64)>, i: int)
    requires
        sorted::<K, VV>(s),
        0 <= i < s.len(),
    ensures
        find_key(s, s[i].0) == i,
    decreases s.len(),
{
    if i < s.len() - 1 {
        assert(K::key_lt(s[i].0, s[s.len() - 1].0));
        K::lemma_key_order(s[i].0, s[i].0, s[i].0);
        assert(s.drop_last()[i] == s[i]);
        lemma_find_key_at::<K, VV>(s.drop_last(), i);
    }
}

/// No entry has key `k`: it is not found.
pub proof fn lemma_find_key_absent<KV, VV>(s: Seq<(KV, VV, u64, u64)>, k: KV)
    requires
        forall|j: int| 0 <= j < s.len() ==> s[j].0 != k,
    ensures
        find_key(s, k) == -1,
    decreases s.len(),
{
    if s.len() > 0 {
        lemma_find_key_absent(s.drop_last(), k);
    }
}

/// A found key is at a valid position and has that key.
pub proof fn lemma_find_key_found<KV, VV>(s: Seq<(KV, VV, u64, u64)>, k: KV)
    ensures
        find_key(s, k) >= 0 ==> find_key(s, k) < s.len() && s[find_key(s, k)].0 == k,
        find_key(s, k) >= -1,
    decreases s.len(),
{
    if s.len() > 0 {
        lemma_find_key_found(s.drop_last(), k);
    }
}

/// In an ordered run whose first `i` keys are below `k` and whose entry at
/// `i` (if any) is not, exactly `i` keys are below `k`.
pub proof fn lemma_count_below<K: RecencyKey, VV>(s: Seq<(K::V, VV, u64, u64)>, k: K::V, i: int)
    requires
        sorted::<K, VV>(s),
        0 <= i <= s.len(),
        forall|j: int| 0 <= j < i ==> K::key_lt(#[trigger] s[j].0, k),
        i < s.len() ==> !K::key_lt(s[i].0, k),
    ensures
        count_below::<K, VV>(s, k) == i,
    decreases s.len(),
{
    if s.len() > 0 {
        let d = s.drop_last();
        assert(sorted::<K, VV>(d));
        if i == s.len() {
            lemma_count_below::<K, VV>(d, k, i - 1);
        } else {
            let l = s.len() - 1;
            if l > i {
                assert(K::key_lt(s[i].0, s[l].0));
                K::lemma_key_order(s[i].0, s[l].0, k);
            }
            assert(!K::key_lt(s[l].0, k));
            lemma_count_below::<K, VV>(d, k, i);
        }
    }
}

/// Storing an entry keeps the run ordered.
pub proof fn lemma_upsert_sorted<K: RecencyKey, VV>(
    s: Seq<(K::V, VV, u64, u64)>,
    k: K::V,
    v: VV,
    now: u64,
    p: int,
)
    requires
        sorted::<K, VV>(s),
        0 <= p <= s.len(),
        forall|j: int| 0 <= j < p ==> K::key_lt(#[trigger] s[j].0, k),
        p < s.len() ==> !K::key_lt(s[p].0, k),
        find_key(s, k) < 0 ==> p == s.len() || s[p].0 != k,
        find_key(s, k) >= 0 ==> find_key(s, k) == p,
    ensures
        sorted::<K, VV>(upsert::<K, VV>(s, k, v, now)),
        upsert::<K, VV>(s, k, v, now).len() <= s.len() + 1,
{
    let e = (k, v, now, now);
    lemma_count_below::<K, VV>(s, k, p);
    lemma_find_key_found(s, k);
    let u = upsert::<K, VV>(s, k, v, now);
    if find_key(s, k) >= 0 {
        assert forall|i: int, j: int| 0 <= i < j < u.len() implies K::key_lt(
            #[trigger] u[i].0,
            #[trigger] u[j].0,
        ) by {
            assert(u[i].0 == s[i].0 && u[j].0 == s[j].0);
        }
    } else {
        assert forall|j: int| p <= j < s.len() implies K::key_lt(k, #[trigger] s[j].0) by {
            if j > p {
                assert(K::key_lt(s[p].0, s[j].0));
                K::lemma_key_order(k, s[p].0, s[j].0);
            }
            K::lemma_key_order(k, s[p].0, s[j].0);
            K::lemma_key_order(s[j].0, k, s[p].0);
        }
        assert forall|i: int, j: int| 0 <= i < j < u.len() implies K::key_lt(
            #[trigger] u[i].0,
            #[trigger] u[j].0,
        ) by {
            if j < p {
                assert(u[i] == s[i] && u[j] == s[j]);
            } else if j == p {
                assert(u[i] == s[i] && u[j] == e);
            } else if i < p {
                assert(u[i] == s[i] && u[j] == s[j - 1]);
                K::lemma_key_order(s[i].0, k, s[j - 1].0);
            } else if i == p {
                assert(u[i] == e && u[j] == s[j - 1]);
            } else {
                assert(u[i] == s[i - 1] && u[j] == s[j - 1]);
            }
        }
    }
}

/// Dropping an entry keeps the run ordered.
pub proof fn lemma_remove_sorted<K: RecencyKey, VV>(s: Seq<(K::V, VV, u64, u64)>, i: int)
    requires
        sorted::<K, VV>(s),
        0 <= i < s.len(),
    ensures
        sorted::<K, VV>(s.remove(i)),
{
    let r = s.remove(i);
    assert forall|a: int, b: int| 0 <= a < b < r.len() implies K::key_lt(
        #[trigger] r[a].0,
        #[trigger] r[b].0,
    ) by {
        let a2 = if a < i {
            a
        } else {
            a + 1
        };
        let b2 = if b < i {
            b
        } else {
            b + 1
        };
        assert(r[a] == s[a2] && r[b] == s[b2]);
    }
}

pub proof fn lemma_lru_index_range<K: RecencyKey, VV>(s: Seq<(K::V, VV, u64, u64)>)
    ensures
        s.len() > 0 ==> 0 <= lru_index::<K, VV>(s) < s.len(),
    decreases s.len(),
{
    if s.len() > 1 {
        lemma_lru_index_range::<K, VV>(s.drop_last());
    }
}

/// A bounded, expiring map that drops its least recently used entry.
pub struct RecencyMap<K, V> {
    capacity: usize,
    ttl_ms: u64,
    slots: Vec<Slot<K, V>>,
}

impl<K: RecencyKey, V: RecencyValue> RecencyMap<K, V> {
    /// The entries in key order.
    pub closed spec fn entries(&self) -> Seq<(K::V, V::V, u64, u64)> {
        slot_views(self.slots@)
    }

    pub closed spec fn spec_capacity(&self) -> nat {
        self.capacity as nat
    }

    pub closed spec fn spec_ttl(&self) -> u64 {
        self.ttl_ms
    }

    /// Entries are in key order and never more than the capacity.
    pub open spec fn wf(&self) -> bool {
        sorted::<K, V::V>(self.entries()) && self.entries().len() <= self.spec_capacity()
    }

    /// An empty map.
    pub fn new(capacity: usize, ttl_ms: u64) -> (m: Self)
        ensures
            m.wf(),
            m.entries().len() == 0,
            m.spec_capacity() == capacity,
            m.spec_ttl() == ttl_ms,
    {
        let m = RecencyMap { capacity, ttl_ms, slots: Vec::new() };
        assert(m.entries() =~= Seq::empty());
        m
    }

    /// The number of entries held, expired ones included.
    pub fn len(&self) -> (n: usize)
        ensures
            n == self.entries().len(),
    {
        self.slots.len()
    }
}

impl<K: RecencyKey, V: RecencyValue> RecencyMap<K, V> {
    /// Drops the entries that have expired at `now`.
    pub fn prune(&mut self, now: u64)
        requires
            old(self).wf(),
        ensures
            final(self).wf(),
            final(self).entries() == live(old(self).entries(), now, old(self).spec_ttl()),
            final(self).spec_capacity() == old(self).spec_capacity(),
            final(self).spec_ttl() == old(self).spec_ttl(),
    {
        let ghost orig = self.entries();
        let mut rest: Vec<Slot<K, V>> = Vec::new();
        std::mem::swap(&mut rest, &mut self.slots);
        let mut kept: Vec<Slot<K, V>> = Vec::new();
        let ghost n = rest@.len();
        let mut i: usize = 0;
        while rest.len() > 0
            invariant
                slot_views(rest@) == orig.skip(i as int),
                slot_views(kept@) == live(orig.take(i as int), now, self.ttl_ms),
                i + rest@.len() == orig.len(),
                orig.len() == n,
                n <= usize::MAX,
                self.ttl_ms == old(self).ttl_ms,
                self.capacity == old(self).capacity,
                orig == old(self).entries(),
            decreases rest@.len(),
        {
            let ghost before = rest@;
            let slot = rest.remove(0);
            let ghost e = slot.view();
            assert(slot_views(before)[0] == before[0].view());
            assert(orig.skip(i as int)[0] == orig[i as int]);
            assert(e == orig[i as int]);
            assert(rest@ == before.subrange(1, before.len() as int));
            assert(slot_views(rest@) == slot_views(before).subrange(1, before.len() as int));
            assert(orig.skip(i as int).subrange(1, before.len() as int) == orig.skip(i as int + 1));
            assert(slot_views(rest@) == orig.skip(i as int + 1));
            let ghost t = orig.take(i as int + 1);
            assert(t.drop_last() == orig.take(i as int));
            assert(t.last() == e);
            if (if now >= slot.stored_at_ms {
                now - slot.stored_at_ms
            } else {
                0
            }) < self.ttl_ms {
                let ghost before = kept@;
                kept.push(slot);
                assert(slot_views(kept@) == slot_views(before).push(e));
            }
            i = i + 1;
        }
        assert(orig.take(i as int) == orig);
        self.slots = kept;
        proof {
            lemma_live_sorted::<K, V::V>(orig, now, self.ttl_ms);
            lemma_live_len(orig, now, self.ttl_ms);
        }
    }

    /// Where `key` is, or goes, in key order, and whether it is there.
    fn position(&self, key: &K) -> (r: (usize, bool))
        requires
            self.wf(),
        ensures
            r.0 <= self.entries().len(),
            r.0 == count_below::<K, V::V>(self.entries(), key@),
            forall|j: int| 0 <= j < r.0 ==> K::key_lt(#[trigger] self.entries()[j].0, key@),
            r.0 < self.entries().len() ==> !K::key_lt(self.entries()[r.0 as int].0, key@),
            r.1 == (find_key(self.entries(), key@) >= 0),
            r.1 ==> find_key(self.entries(), key@) == r.0 && r.0 < self.entries().len(),
            !r.1 ==> r.0 == self.entries().len() || self.entries()[r.0 as int].0 != key@,
    {
        let ghost s = self.entries();
        let mut i: usize = 0;
        while i < self.slots.len() && self.slots[i].key.compare_key(key) == KeyOrder::Less
            invariant
                0 <= i <= s.len(),
                s == self.entries(),
                forall|j: int| 0 <= j < i ==> K::key_lt(#[trigger] s[j].0, key@),
            decreases s.len() - i,
        {
            assert(s[i as int].0 == self.slots@[i as int].key@);
            i = i + 1;
        }
        if i < self.slots.len() {
            assert(s[i as int].0 == self.slots@[i as int].key@);
        }
        proof {
            lemma_count_below::<K, V::V>(s, key@, i as int);
        }
        let found = i < self.slots.len() && self.slots[i].key.compare_key(key) == KeyOrder::Equal;
        proof {
            if found {
                lemma_find_key_at::<K, V::V>(s, i as int);
            } else {
                assert forall|j: int| 0 <= j < s.len() implies s[j].0 != key@ by {
                    K::lemma_key_order(s[j].0, key@, key@);
                    if j > i {
                        assert(K::key_lt(s[i as int].0, s[j].0));
                        K::lemma_key_order(s[i as int].0, s[j].0, key@);
                    }
                }
                lemma_find_key_absent(s, key@);
            }
        }
        (i, found)
    }

    /// Position of the least recently used entry.
    fn lru_position(&self) -> (r: usize)
        requires
            self.slots@.len() > 0,
        ensures
            r == lru_index::<K, V::V>(self.entries()),
            r < self.entries().len(),
    {
        let ghost s = self.entries();
        let mut best: usize = 0;
        let mut j: usize = 1;
        while j < self.slots.len()
            invariant
                1 <= j <= s.len(),
                s == self.entries(),
                best < j,
                best == lru_index::<K, V::V>(s.take(j as int)),
            decreases s.len() - j,
        {
            let ghost t = s.take(j as int + 1);
            assert(t.drop_last() == s.take(j as int));
            assert(t.last() == s[j as int]);
            assert(t[best as int] == s[best as int]);
            let a = &self.slots[j];
            let b = &self.slots[best];
            assert(a.view() == s[j as int] && b.view() == s[best as int]);
            let earlier = a.last_accessed_ms < b.last_accessed_ms || (a.last_accessed_ms
                == b.last_accessed_ms && a.key.compare_key(&b.key) == KeyOrder::Less);
            if earlier {
                best = j;
            }
            j = j + 1;
        }
        assert(s.take(j as int) == s);
        best
    }

    /// The value stored under `key` at `now`, if any; using it makes it the
    /// most recently used entry. Expired entries are dropped first.
    pub fn get(&mut self, key: &K, now: u64) -> (r: Option<V>)
        requires
            old(self).wf(),
        ensures
            final(self).wf(),
            final(self).spec_capacity() == old(self).spec_capacity(),
            final(self).spec_ttl() == old(self).spec_ttl(),
            ({
                let s = live(old(self).entries(), now, old(self).spec_ttl());
                let i = find_key(s, key@);
                if i >= 0 {
                    &&& final(self).entries() == s.update(i, (s[i].0, s[i].1, s[i].2, now))
                    &&& r matches Some(v) && v@ == s[i].1
                } else {
                    final(self).entries() == s && r is None
                }
            }),
    {
        self.prune(now);
        let ghost s = self.entries();
        let (p, found) = self.position(key);
        if !found {
            return None;
        }
        let slot = self.slots.remove(p);
        let v = slot.value.copy_value();
        let updated = Slot {
            key: slot.key,
            value: slot.value,
            stored_at_ms: slot.stored_at_ms,
            last_accessed_ms: now,
        };
        self.slots.insert(p, updated);
        proof {
            assert(self.entries() == s.update(p as int, (s[p as int].0, s[p as int].1, s[p as int].2, now)));
            let u = self.entries();
            assert forall|i: int, j: int| 0 <= i < j < u.len() implies K::key_lt(
                #[trigger] u[i].0,
                #[trigger] u[j].0,
            ) by {
                assert(u[i].0 == s[i].0 && u[j].0 == s[j].0);
            }
        }
        Some(v)
    }

    /// Stores `value` under `key` at `now`, replacing an earlier value; when
    /// the map then holds more than its capacity, its least recently used
    /// entry is dropped. Expired entries are dropped first; a map of
    /// capacity zero stores nothing.
    pub fn insert(&mut self, key: K, value: V, now: u64)
        requires
            old(self).wf(),
        ensures
            final(self).wf(),
            final(self).spec_capacity() == old(self).spec_capacity(),
            final(self).spec_ttl() == old(self).spec_ttl(),
            ({
                let s = live(old(self).entries(), now, old(self).spec_ttl());
                if old(self).spec_capacity() == 0 {
                    final(self).entries() == s
                } else {
                    final(self).entries() == evict_over::<K, V::V>(
                        upsert::<K, V::V>(s, key@, value@, now),
                        old(self).spec_capacity(),
                    )
                }
            }),
    {
        self.prune(now);
        if self.capacity == 0 {
            return;
        }
        let ghost s = self.entries();
        let ghost kv = key@;
        let ghost vv = value@;
        let (p, found) = self.position(&key);
        let slot = Slot { key, value, stored_at_ms: now, last_accessed_ms: now };
        if found {
            let _old = self.slots.remove(p);
            self.slots.insert(p, slot);
        } else {
            self.slots.insert(p, slot);
        }
        proof {
            lemma_upsert_sorted::<K, V::V>(s, kv, vv, now, p as int);
            let u = upsert::<K, V::V>(s, kv, vv, now);
            if found {
                assert(self.entries() == s.update(p as int, (kv, vv, now, now)));
            } else {
                assert(self.entries() == s.insert(p as int, (kv, vv, now, now)));
            }
            assert(self.entries() == u);
        }
        if self.slots.len() > self.capacity {
            let ghost u = self.entries();
            let i = self.lru_position();
            let _dropped = self.slots.remove(i);
            proof {
                assert(self.entries() == u.remove(i as int));
                lemma_remove_sorted::<K, V::V>(u, i as int);
            }
        }
    }

    /// The value stored under `key` at `now`, if any, without marking it
    /// used. Expired entries are dropped first.
    pub fn peek(&mut self, key: &K, now: u64) -> (r: Option<V>)
        requires
            old(self).wf(),
        ensures
            final(self).wf(),
            final(self).spec_capacity() == old(self).spec_capacity(),
            final(self).spec_ttl() == old(self).spec_ttl(),
            final(self).entries() == live(old(self).entries(), now, old(self).spec_ttl()),
            ({
                let s = final(self).entries();
                let i = find_key(s, key@);
                if i >= 0 {
                    r matches Some(v) && v@ == s[i].1
                } else {
                    r is None
                }
            }),
    {
        self.prune(now);
        let (p, found) = self.position(key);
        if !found {
            return None;
        }
        let v = self.slots[p].value.copy_value();
        assert(self.entries()[p as int] == self.slots@[p as int].view());
        Some(v)
    }

    /// The value stored under `key`, expired or not, without marking it used.
    pub fn peek_any(&self, key: &K) -> (r: Option<V>)
        requires
            self.wf(),
        ensures
            ({
                let s = self.entries();
                let i = find_key(s, key@);
                if i >= 0 {
                    r matches Some(v) && v@ == s[i].1
                } else {
                    r is None
                }
            }),
    {
        let (p, found) = self.position(key);
        if !found {
            return None;
        }
        let v = self.slots[p].value.copy_value();
        assert(self.entries()[p as int] == self.slots@[p as int].view());
        Some(v)
    }

    /// Replaces the value stored under `key` and marks it used at `now`; the
    /// time it was stored is kept. Gives whether the key was there.
    pub fn replace_value(&mut self, key: &K, value: V, now: u64) -> (found: bool)
        requires
            old(self).wf(),
        ensures
            final(self).wf(),
            final(self).spec_capacity() == old(self).spec_capacity(),
            final(self).spec_ttl() == old(self).spec_ttl(),
            ({
                let s = old(self).entries();
                let i = find_key(s, key@);
                if i >= 0 {
                    &&& found
                    &&& final(self).entries() == s.update(i, (s[i].0, value@, s[i].2, now))
                } else {
                    !found && final(self).entries() == s
                }
            }),
    {
        let ghost s = self.entries();
        let (p, found) = self.position(key);
        if !found {
            return false;
        }
        let slot = self.slots.remove(p);
        let updated = Slot {
            key: slot.key,
            value,
            stored_at_ms: slot.stored_at_ms,
            last_accessed_ms: now,
        };
        self.slots.insert(p, updated);
        proof {
            let u = self.entries();
            assert(u == s.update(p as int, (s[p as int].0, value@, s[p as int].2, now)));
            assert forall|i: int, j: int| 0 <= i < j < u.len() implies K::key_lt(
                #[trigger] u[i].0,
                #[trigger] u[j].0,
            ) by {
                assert(u[i].0 == s[i].0 && u[j].0 == s[j].0);
            }
        }
        true
    }

    /// Removes the entry with `key`, expired or not, and gives its value.
    pub fn remove(&mut self, key: &K) -> (r: Option<V>)
        requires
            old(self).wf(),
        ensures
            final(self).wf(),
            final(self).spec_capacity() == old(self).spec_capacity(),
            final(self).spec_ttl() == old(self).spec_ttl(),
            ({
                let s = old(self).entries();
                let i = find_key(s, key@);
                if i >= 0 {
                    &&& final(self).entries() == s.remove(i)
                    &&& r matches Some(v) && v@ == s[i].1
                } else {
                    final(self).entries() == s && r is None
                }
            }),
    {
        let ghost s = self.entries();
        let (p, found) = self.position(key);
        if !found {
            return None;
        }
        let slot = self.slots.remove(p);
        proof {
            assert(self.entries() == s.remove(p as int));
            lemma_remove_sorted::<K, V::V>(s, p as int);
        }
        Some(slot.value)
    }

    /// Copies of the live entries at `now`, in key order, after dropping the
    /// expired ones.
    pub fn snapshot(&mut self, now: u64) -> (r: Vec<(K, V)>)
        requires
            old(self).wf(),
        ensures
            final(self).wf(),
            final(self).spec_capacity() == old(self).spec_capacity(),
            final(self).spec_ttl() == old(self).spec_ttl(),
            final(self).entries() == live(old(self).entries(), now, old(self).spec_ttl()),
            r@.len() == final(self).entries().len(),
            forall|j: int|
                0 <= j < r@.len() ==> (#[trigger] r@[j]).0@ == final(self).entries()[j].0
                    && r@[j].1@ == final(self).entries()[j].1,
    {
        self.prune(now);
        let mut out: Vec<(K, V)> = Vec::new();
        let mut j: usize = 0;
        while j < self.slots.len()
            invariant
                0 <= j <= self.slots@.len(),
                out@.len() == j,
                forall|q: int|
                    0 <= q < j ==> (#[trigger] out@[q]).0@ == self.entries()[q].0 && out@[q].1@
                        == self.entries()[q].1,
            decreases self.slots@.len() - j,
        {
            let k = self.slots[j].key.copy_key();
            let v = self.slots[j].value.copy_value();
            assert(self.entries()[j as int] == self.slots@[j as int].view());
            out.push((k, v));
            j = j + 1;
        }
        out
    }
}

// ---------------------------------------------------------------------------
// Laws.
// ---------------------------------------------------------------------------

/// The least recently used entry is not used after any other entry.
pub proof fn lemma_lru_is_least<K: RecencyKey, VV>(s: Seq<(K::V, VV, u64, u64)>, j: int)
    requires
        sorted::<K, VV>(s),
        0 <= j < s.len(),
    ensures
        0 <= lru_index::<K, VV>(s) < s.len(),
        j != lru_index::<K, VV>(s) ==> !used_before::<K, VV>(s[j], s[lru_index::<K, VV>(s)]),
    decreases s.len(),
{
    lemma_lru_index_range::<K, VV>(s);
    if s.len() > 1 {
        let d = s.drop_last();
        assert(sorted::<K, VV>(d));
        lemma_lru_index_range::<K, VV>(d);
        let b = lru_index::<K, VV>(d);
        let l = s.len() - 1;
        if j < l {
            lemma_lru_is_least::<K, VV>(d, j);
            assert(d[j] == s[j] && d[b] == s[b]);
        }
        K::lemma_key_order(s[l].0, s[b].0, s[l].0);
        if j < l && lru_index::<K, VV>(s) == l && j != b {
            // s[l] before s[b], s[j] not before s[b]: s[j] not before s[l]
            K::lemma_key_order(s[j].0, s[l].0, s[b].0);
            K::lemma_key_order(s[l].0, s[j].0, s[b].0);
            K::lemma_key_order(s[j].0, s[b].0, s[l].0);
        }
        if j == b && lru_index::<K, VV>(s) == l {
            K::lemma_key_order(s[b].0, s[l].0, s[b].0);
        }
        if j == l && lru_index::<K, VV>(s) == b {
            assert(b < l);
            assert(K::key_lt(s[b].0, s[l].0));
            K::lemma_key_order(s[l].0, s[b].0, s[l].0);
        }
    }
}

proof fn lemma_all_alive<KV, VV>(s: Seq<(KV, VV, u64, u64)>, now: u64, ttl: u64)
    requires
        forall|j: int| 0 <= j < s.len() ==> alive(#[trigger] s[j].2, now, ttl),
    ensures
        live(s, now, ttl) == s,
    decreases s.len(),
{
    if s.len() > 0 {
        lemma_all_alive(s.drop_last(), now, ttl);
        assert(s.drop_last().push(s.last()) == s);
    }
}

/// A value stored at `now` is read back at `now`, as long as entries live
/// for some time and every entry already there was last used before `now`.
pub proof fn lemma_get_after_insert<K: RecencyKey, VV>(
    s: Seq<(K::V, VV, u64, u64)>,
    k: K::V,
    v: VV,
    now: u64,
    cap: nat,
    ttl: u64,
)
    requires
        sorted::<K, VV>(s),
        s.len() <= cap,
        cap > 0,
        ttl > 0,
        forall|j: int| 0 <= j < s.len() ==> (#[trigger] s[j]).3 < now,
    ensures
        ({
            let stored = evict_over::<K, VV>(upsert::<K, VV>(live(s, now, ttl), k, v, now), cap);
            let read = live(stored, now, ttl);
            &&& read == stored
            &&& find_key(read, k) >= 0
            &&& read[find_key(read, k)].1 == v
        }),
{
    let l = live(s, now, ttl);
    lemma_live_sorted::<K, VV>(s, now, ttl);
    lemma_live_len(s, now, ttl);
    assert forall|j: int| 0 <= j < l.len() implies (#[trigger] l[j]).3 < now && alive(
        l[j].2,
        now,
        ttl,
    ) by {
        lemma_live_sub(s, now, ttl, j);
        let i = choose|i: int| j <= i < s.len() && l[j] == s[i];
        assert(l[j] == s[i]);
        assert(s[i].3 < now);
        lemma_live_alive(s, now, ttl, j);
    }
    // where the key goes
    let found = find_key(l, k);
    lemma_find_key_found(l, k);
    let cb = count_below::<K, VV>(l, k);
    let u = upsert::<K, VV>(l, k, v, now);
    let e = (k, v, now, now);
    let pos = if found >= 0 {
        found
    } else {
        cb
    };
    lemma_count_below_range::<K, VV>(l, k);
    assert(u[pos] == e);
    assert(u.len() <= cap + 1);
    assert forall|j: int| 0 <= j < u.len() && j != pos implies (#[trigger] u[j]).3 < now by {
        if found >= 0 {
            assert(u[j] == l[j]);
        } else if j < pos {
            assert(u[j] == l[j]);
        } else {
            assert(u[j] == l[j - 1]);
        }
    }
    lemma_upsert_sorted_any::<K, VV>(l, k, v, now);
    let stored = evict_over::<K, VV>(u, cap);
    let mut q: int = pos;
    if u.len() > cap {
        let li = lru_index::<K, VV>(u);
        assert(u.len() >= 2);
        let other = if pos == 0 {
            1int
        } else {
            0int
        };
        lemma_lru_is_least::<K, VV>(u, other);
        lemma_lru_is_least::<K, VV>(u, pos);
        if li == pos {
            assert(u[other].3 < now);
            assert(used_before::<K, VV>(u[other], u[pos]));
        }
        assert(li != pos);
        q = if li < pos {
            pos - 1
        } else {
            pos
        };
        assert(stored[q] == e);
        lemma_remove_sorted::<K, VV>(u, li);
    }
    assert(stored[q] == e);
    assert forall|j: int| 0 <= j < stored.len() implies alive(#[trigger] stored[j].2, now, ttl) by {
        if stored[j] != e {
            if u.len() > cap {
                let li = lru_index::<K, VV>(u);
                let j2 = if j < li {
                    j
                } else {
                    j + 1
                };
                assert(stored[j] == u[j2]);
                if found >= 0 {
                    assert(u[j2] == l[j2]);
                } else if j2 < pos {
                    assert(u[j2] == l[j2]);
                } else if j2 > pos {
                    assert(u[j2] == l[j2 - 1]);
                }
            } else {
                if found >= 0 {
                    assert(u[j] == l[j]);
                } else if j < pos {
                    assert(u[j] == l[j]);
                } else if j > pos {
                    assert(u[j] == l[j - 1]);
                }
            }
        }
    }
    lemma_all_alive(stored, now, ttl);
    lemma_find_key_at::<K, VV>(stored, q);
}

/// Every entry still alive was stored less than `ttl` ago: an entry expires
/// by the time it was stored, however recently it was used.
pub proof fn lemma_live_alive<KV, VV>(s: Seq<(KV, VV, u64, u64)>, now: u64, ttl: u64, j: int)
    requires
        0 <= j < live(s, now, ttl).len(),
    ensures
        alive(live(s, now, ttl)[j].2, now, ttl),
    decreases s.len(),
{
    let d = live(s.drop_last(), now, ttl);
    if alive(s.last().2, now, ttl) && j == d.len() {
    } else {
        lemma_live_alive(s.drop_last(), now, ttl, j);
    }
}

pub proof fn lemma_count_below_range<K: RecencyKey, VV>(s: Seq<(K::V, VV, u64, u64)>, k: K::V)
    ensures
        0 <= count_below::<K, VV>(s, k) <= s.len(),
    decreases s.len(),
{
    if s.len() > 0 {
        lemma_count_below_range::<K, VV>(s.drop_last(), k);
    }
}

pub proof fn lemma_upsert_sorted_any<K: RecencyKey, VV>(s: Seq<(K::V, VV, u64, u64)>, k: K::V, v: VV, now: u64)
    requires
        sorted::<K, VV>(s),
    ensures
        sorted::<K, VV>(upsert::<K, VV>(s, k, v, now)),
{
    // the position where `k` goes: after every key below it
    let p = count_below::<K, VV>(s, k);
    lemma_count_below_range::<K, VV>(s, k);
    lemma_count_below_prefix::<K, VV>(s, k);
    lemma_find_key_found(s, k);
    if find_key(s, k) >= 0 {
        let i = find_key(s, k);
        assert forall|j: int| 0 <= j < i implies K::key_lt(#[trigger] s[j].0, k) by {
            assert(K::key_lt(s[j].0, s[i].0));
        }
        K::lemma_key_order(k, k, k);
        lemma_count_below::<K, VV>(s, k, i);
        lemma_upsert_sorted::<K, VV>(s, k, v, now, i);
    } else {
        lemma_upsert_sorted::<K, VV>(s, k, v, now, p);
    }
}

/// In an ordered run the keys below `k` come first.
proof fn lemma_count_below_prefix<K: RecencyKey, VV>(s: Seq<(K::V, VV, u64, u64)>, k: K::V)
    requires
        sorted::<K, VV>(s),
    ensures
        forall|j: int| 0 <= j < count_below::<K, VV>(s, k) ==> K::key_lt(#[trigger] s[j].0, k),
        count_below::<K, VV>(s, k) < s.len() ==> !K::key_lt(s[count_below::<K, VV>(s, k)].0, k),
        find_key(s, k) < 0 ==> count_below::<K, VV>(s, k) == s.len() || s[count_below::<K, VV>(
            s,
            k,
        )].0 != k,
    decreases s.len(),
{
    lemma_count_below_range::<K, VV>(s, k);
    if s.len() > 0 {
        let d = s.drop_last();
        assert(sorted::<K, VV>(d));
        lemma_count_below_prefix::<K, VV>(d, k);
        lemma_count_below_range::<K, VV>(d, k);
        let c = count_below::<K, VV>(d, k);
        let l = s.len() - 1;
        if K::key_lt(s[l].0, k) {
            // every earlier key is below s[l], hence below k
            assert forall|j: int| 0 <= j < l implies K::key_lt(#[trigger] s[j].0, k) by {
                assert(K::key_lt(s[j].0, s[l].0));
                K::lemma_key_order(s[j].0, s[l].0, k);
            }
            assert forall|j: int| 0 <= j < l implies K::key_lt(#[trigger] d[j].0, k) by {
                assert(d[j] == s[j]);
            }
            lemma_count_below::<K, VV>(d, k, l);
            assert(c == l);
        } else {
            assert forall|j: int| 0 <= j < c implies K::key_lt(#[trigger] s[j].0, k) by {
                assert(d[j] == s[j]);
            }
            if c < l {
                assert(d[c] == s[c]);
            }
            if find_key(s, k) < 0 && c < s.len() {
                assert(s[l].0 != k);
                if c < l {
                    assert(d[c] == s[c]);
                    lemma_find_key_found(d, k);
                }
            }
        }
    }
}

/// Once removed, a key is not found.
pub proof fn lemma_absent_after_remove<K: RecencyKey, VV>(s: Seq<(K::V, VV, u64, u64)>, k: K::V, now: u64, ttl: u64)
    requires
        sorted::<K, VV>(s),
        find_key(s, k) >= 0,
    ensures
        find_key(s.remove(find_key(s, k)), k) == -1,
        find_key(live(s.remove(find_key(s, k)), now, ttl), k) == -1,
{
    lemma_find_key_found(s, k);
    let i = find_key(s, k);
    let r = s.remove(i);
    assert forall|j: int| 0 <= j < r.len() implies r[j].0 != k by {
        let j2 = if j < i {
            j
        } else {
            j + 1
        };
        assert(r[j] == s[j2]);
        K::lemma_key_order(s[j2].0, s[i].0, s[j2].0);
        if j2 < i {
            assert(K::key_lt(s[j2].0, s[i].0));
        } else {
            assert(K::key_lt(s[i].0, s[j2].0));
        }
    }
    lemma_find_key_absent(r, k);
    let l = live(r, now, ttl);
    assert forall|j: int| 0 <= j < l.len() implies l[j].0 != k by {
        lemma_live_sub(r, now, ttl, j);
    }
    lemma_find_key_absent(l, k);
}

} // verus!
