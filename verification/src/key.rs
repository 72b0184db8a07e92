use crate::recency::{KeyOrder, RecencyKey};
use crate::text::opt_view;
use vstd::prelude::*;

verus! {

/// Identity of a message within a chat: the chat JID, whether this client
/// sent it, its id and, in groups and broadcasts, the author's JID.
#[derive(Clone, Debug, PartialEq, Eq)]
pub struct MessageKey {
    pub remote_jid: Option<String>,
    pub from_me: Option<bool>,
    pub id: Option<String>,
    pub participant: Option<String>,
}

/// The plain-value view of a message key.
pub struct MessageKeyView {
    pub remote_jid: Option<Seq<char>>,
    pub from_me: Option<bool>,
    pub id: Option<Seq<char>>,
    pub participant: Option<Seq<char>>,
}

impl View for MessageKey {
    type V = MessageKeyView;

    open spec fn view(&self) -> MessageKeyView {
        MessageKeyView {
            remote_jid: opt_view(self.remote_jid),
            from_me: self.from_me,
            id: opt_view(self.id),
            participant: opt_view(self.participant),
        }
    }
}

/// Identity of a message in the event stream: chat JID, message id and, in
/// groups, the author's JID.
#[derive(Clone, Debug, PartialEq, Eq, PartialOrd, Ord, Hash)]
pub struct MessageEventKey {
    pub remote_jid: String,
    pub id: String,
    pub participant: Option<String>,
}

/// The plain-value view of a message event key.
pub struct EventKeyView {
    pub remote_jid: Seq<char>,
    pub id: Seq<char>,
    pub participant: Option<Seq<char>>,
}

impl View for MessageEventKey {
    type V = EventKeyView;

    open spec fn view(&self) -> EventKeyView {
        EventKeyView {
            remote_jid: self.remote_jid@,
            id: self.id@,
            participant: opt_view(self.participant),
        }
    }
}

impl MessageEventKey {
    /// A key from its parts.
    pub fn new(remote_jid: &str, id: &str, participant: Option<&str>) -> (k: Self)
        ensures
            k@.remote_jid == remote_jid@,
            k@.id == id@,
            k@.participant == match participant {
                Some(p) => Some(p@),
                None => None::<Seq<char>>,
            },
    {
        MessageEventKey {
            remote_jid: crate::text::owned(remote_jid),
            id: crate::text::owned(id),
            participant: match participant {
                Some(p) => Some(crate::text::owned(p)),
                None => None,
            },
        }
    }

    /// A copy of this key.
    pub fn copy(&self) -> (k: Self)
        ensures
            k@ == self@,
    {
        MessageEventKey {
            remote_jid: crate::text::clone_string(&self.remote_jid),
            id: crate::text::clone_string(&self.id),
            participant: crate::text::clone_opt_string(&self.participant),
        }
    }
}

// ---------------------------------------------------------------------------
// Key order: by chat, then id, then participant (absent first); text is
// compared character by character, by code point.
// ---------------------------------------------------------------------------

/// Lexicographic order on character sequences.
pub open spec fn chars_lt(a: Seq<char>, b: Seq<char>) -> bool
    decreases a.len(),
{
    if a.len() == 0 {
        b.len() > 0
    } else if b.len() == 0 {
        false
    } else if a[0] < b[0] {
        true
    } else if a[0] == b[0] {
        chars_lt(a.drop_first(), b.drop_first())
    } else {
        false
    }
}

pub proof fn lemma_chars_order(a: Seq<char>, b: Seq<char>, c: Seq<char>)
    ensures
        !chars_lt(a, a),
        chars_lt(a, b) && chars_lt(b, c) ==> chars_lt(a, c),
        a == b || chars_lt(a, b) || chars_lt(b, a),
    decreases a.len(),
{
    if a.len() > 0 && b.len() > 0 {
        let c1 = if c.len() > 0 {
            c.drop_first()
        } else {
            a.drop_first()
        };
        lemma_chars_order(a.drop_first(), b.drop_first(), c1);
    }
    if a.len() > 0 {
        lemma_chars_order(a.drop_first(), a.drop_first(), a.drop_first());
    }
    if a.len() > 0 && b.len() > 0 && a[0] == b[0] && a.drop_first() == b.drop_first() {
        assert(a == seq![a[0]] + a.drop_first());
        assert(b == seq![b[0]] + b.drop_first());
    }
    if a.len() == 0 && b.len() == 0 {
        assert(a == b);
    }
}

proof fn lemma_chars_lt_skip(a: Seq<char>, b: Seq<char>, i: int)
    requires
        0 <= i <= a.len(),
        i <= b.len(),
        a.take(i) == b.take(i),
    ensures
        chars_lt(a, b) == chars_lt(a.skip(i), b.skip(i)),
    decreases i,
{
    if i > 0 {
        assert(a[0] == a.take(i)[0]);
        assert(b[0] == b.take(i)[0]);
        assert(a.drop_first().take(i - 1) == a.take(i).drop_first());
        assert(b.drop_first().take(i - 1) == b.take(i).drop_first());
        lemma_chars_lt_skip(a.drop_first(), b.drop_first(), i - 1);
        assert(a.drop_first().skip(i - 1) == a.skip(i));
        assert(b.drop_first().skip(i - 1) == b.skip(i));
        assert(a[0] == b[0]);
        assert(chars_lt(a, b) == chars_lt(a.drop_first(), b.drop_first()));
    } else {
        assert(a.skip(0) == a && b.skip(0) == b);
    }
}

/// Compares two strings character by character.
pub fn compare_text(a: &str, b: &str) -> (r: KeyOrder)
    ensures
        (r == KeyOrder::Less) == chars_lt(a@, b@),
        (r == KeyOrder::Equal) == (a@ == b@),
        (r == KeyOrder::Greater) == chars_lt(b@, a@),
{
    let x = crate::text::chars_of(a);
    let y = crate::text::chars_of(b);
    let mut i: usize = 0;
    while i < x.len() && i < y.len() && x[i] == y[i]
        invariant
            0 <= i <= x@.len(),
            i <= y@.len(),
            x@ == a@,
            y@ == b@,
            x@.take(i as int) == y@.take(i as int),
        decreases x@.len() - i,
    {
        assert(x@.take(i as int + 1) == x@.take(i as int).push(x@[i as int]));
        assert(y@.take(i as int + 1) == y@.take(i as int).push(y@[i as int]));
        i = i + 1;
    }
    proof {
        lemma_chars_lt_skip(x@, y@, i as int);
        lemma_chars_lt_skip(y@, x@, i as int);
        lemma_chars_order(x@, y@, x@);
    }
    if i == x.len() && i == y.len() {
        assert(x@ == x@.take(i as int) && y@ == y@.take(i as int));
        KeyOrder::Equal
    } else if i == x.len() {
        assert(x@.skip(i as int).len() == 0);
        KeyOrder::Less
    } else if i == y.len() {
        assert(y@.skip(i as int).len() == 0);
        KeyOrder::Greater
    } else if x[i] < y[i] {
        assert(x@.skip(i as int)[0] == x@[i as int]);
        assert(y@.skip(i as int)[0] == y@[i as int]);
        KeyOrder::Less
    } else {
        assert(x@.skip(i as int)[0] == x@[i as int]);
        assert(y@.skip(i as int)[0] == y@[i as int]);
        KeyOrder::Greater
    }
}

/// Absent participants come first.
pub open spec fn opt_chars_lt(a: Option<Seq<char>>, b: Option<Seq<char>>) -> bool {
    match (a, b) {
        (None, Some(_)) => true,
        (Some(x), Some(y)) => chars_lt(x, y),
        _ => false,
    }
}

pub open spec fn event_key_lt(a: EventKeyView, b: EventKeyView) -> bool {
    chars_lt(a.remote_jid, b.remote_jid) || (a.remote_jid == b.remote_jid && (chars_lt(a.id, b.id)
        || (a.id == b.id && opt_chars_lt(a.participant, b.participant))))
}

impl RecencyKey for MessageEventKey {
    open spec fn key_lt(a: EventKeyView, b: EventKeyView) -> bool {
        event_key_lt(a, b)
    }

    proof fn lemma_key_order(a: EventKeyView, b: EventKeyView, c: EventKeyView) {
        lemma_chars_order(a.remote_jid, b.remote_jid, c.remote_jid);
        lemma_chars_order(a.id, b.id, c.id);
        lemma_chars_order(b.remote_jid, a.remote_jid, c.remote_jid);
        lemma_chars_order(b.id, a.id, c.id);
        match (a.participant, b.participant, c.participant) {
            (Some(x), Some(y), Some(z)) => {
                lemma_chars_order(x, y, z);
                lemma_chars_order(y, x, z);
            },
            (Some(x), Some(y), _) => {
                lemma_chars_order(x, y, x);
            },
            (Some(x), _, Some(z)) => {
                lemma_chars_order(x, z, x);
            },
            (_, Some(y), Some(z)) => {
                lemma_chars_order(y, z, y);
            },
            (Some(x), _, _) => {
                lemma_chars_order(x, x, x);
            },
            _ => {},
        }
    }

    fn compare_key(&self, other: &Self) -> (r: KeyOrder) {
        proof {
            Self::lemma_key_order(self@, other@, self@);
            lemma_chars_order(self@.remote_jid, other@.remote_jid, self@.remote_jid);
            lemma_chars_order(self@.id, other@.id, self@.id);
        }
        let c = compare_text(self.remote_jid.as_str(), other.remote_jid.as_str());
        if c != KeyOrder::Equal {
            return c;
        }
        let c = compare_text(self.id.as_str(), other.id.as_str());
        if c != KeyOrder::Equal {
            return c;
        }
        match (&self.participant, &other.participant) {
            (None, None) => KeyOrder::Equal,
            (None, Some(_)) => KeyOrder::Less,
            (Some(_), None) => KeyOrder::Greater,
            (Some(x), Some(y)) => {
                proof {
                    lemma_chars_order(x@, y@, x@);
                }
                compare_text(x.as_str(), y.as_str())
            },
        }
    }

    fn copy_key(&self) -> (r: Self) {
        self.copy()
    }
}

} // verus!
