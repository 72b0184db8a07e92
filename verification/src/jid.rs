use crate::text::{
    all_digits, chars_of, concat2, decimal_chars, digit_value, digits_value, is_digit, owned,
    str_eq, string_from_chars, sub_chars, u64_to_string,
};
use vstd::prelude::*;
use vstd::string::*;

verus! {

broadcast use vstd::string::group_string_axioms;

/// The server (domain) part of a JID, classified.
#[derive(Clone, Copy, Debug, PartialEq, Eq, Structural)]
pub enum JidServer {
    CUs,
    SWhatsAppNet,
    GUs,
    Broadcast,
    Lid,
    Hosted,
    HostedLid,
    Newsletter,
    Call,
    Bot,
    Other,
}

/// A decoded JID: `user[_agent][:device]@server`.
#[derive(Debug)]
pub struct Jid {
    pub user: String,
    pub agent: Option<u32>,
    pub device: Option<u32>,
    pub server: JidServer,
    pub server_raw: String,
}

/// The user server of phone-number accounts.
pub const S_WHATSAPP_NET: &'static str = "s.whatsapp.net";

pub open spec fn server_of(raw: Seq<char>) -> JidServer {
    if raw == "c.us"@ {
        JidServer::CUs
    } else if raw == "s.whatsapp.net"@ {
        JidServer::SWhatsAppNet
    } else if raw == "g.us"@ {
        JidServer::GUs
    } else if raw == "broadcast"@ {
        JidServer::Broadcast
    } else if raw == "lid"@ {
        JidServer::Lid
    } else if raw == "hosted"@ {
        JidServer::Hosted
    } else if raw == "hosted.lid"@ {
        JidServer::HostedLid
    } else if raw == "newsletter"@ {
        JidServer::Newsletter
    } else if raw == "call"@ {
        JidServer::Call
    } else if raw == "bot"@ {
        JidServer::Bot
    } else {
        JidServer::Other
    }
}

/// Position of the first `c` in `s`, or -1.
pub open spec fn index_of(s: Seq<char>, c: char) -> int
    decreases s.len(),
{
    if s.len() == 0 {
        -1
    } else if s[0] == c {
        0
    } else {
        let r = index_of(s.drop_first(), c);
        if r < 0 {
            -1
        } else {
            r + 1
        }
    }
}

/// A device or agent number: one to nine ASCII digits.
pub open spec fn small_number(t: Seq<char>) -> Option<nat> {
    if 1 <= t.len() <= 9 && all_digits(t) {
        Some(digits_value(t))
    } else {
        None
    }
}

/// Splits `s` at the first `sep`: the text before, and the number after (if
/// the separator is present). `None` when the text after it is not a number.
pub open spec fn split_number(s: Seq<char>, sep: char) -> Option<(Seq<char>, Option<nat>)> {
    let i = index_of(s, sep);
    if i < 0 {
        Some((s, None))
    } else {
        match small_number(s.skip(i + 1)) {
            Some(n) => Some((s.take(i), Some(n))),
            None => None,
        }
    }
}

/// The JID grammar: `user[_agent][:device]@server`, split at the first `@`,
/// then at the first `:`, then at the first `_`. Yields
/// `(user, agent, device, server)`.
pub open spec fn jid_parse(s: Seq<char>) -> Option<(Seq<char>, Option<nat>, Option<nat>, Seq<char>)> {
    let at = index_of(s, '@');
    if at < 0 {
        None
    } else {
        let userpart = s.take(at);
        let server = s.skip(at + 1);
        match split_number(userpart, ':') {
            None => None,
            Some((user_agent, device)) => match split_number(user_agent, '_') {
                None => None,
                Some((user, agent)) => Some((user, agent, device, server)),
            },
        }
    }
}

pub open spec fn jid_valid(s: Seq<char>) -> bool {
    jid_parse(s).is_some()
}

pub open spec fn jid_user(s: Seq<char>) -> Seq<char> {
    jid_parse(s).unwrap().0
}

pub open spec fn jid_server_raw(s: Seq<char>) -> Seq<char> {
    jid_parse(s).unwrap().3
}

pub open spec fn jid_server(s: Seq<char>) -> JidServer {
    server_of(jid_server_raw(s))
}

pub open spec fn number_suffix(sep: char, n: Option<u32>) -> Seq<char> {
    match n {
        Some(v) => seq![sep] + decimal_chars(v as nat),
        None => Seq::empty(),
    }
}

/// Text of a JID built from its parts.
pub open spec fn jid_text(user: Seq<char>, server: Seq<char>, device: Option<u32>, agent: Option<u32>) -> Seq<char> {
    user + number_suffix('_', agent) + number_suffix(':', device) + seq!['@'] + server
}

pub open spec fn opt_nat(o: Option<u32>) -> Option<nat> {
    match o {
        Some(v) => Some(v as nat),
        None => None,
    }
}

impl Jid {
    pub open spec fn parts(&self) -> (Seq<char>, Option<nat>, Option<nat>, Seq<char>) {
        (self.user@, opt_nat(self.agent), opt_nat(self.device), self.server_raw@)
    }
}

/// Classifies a server name.
pub fn classify_server(raw: &str) -> (s: JidServer)
    ensures
        s == server_of(raw@),
{
    if str_eq(raw, "c.us") {
        JidServer::CUs
    } else if str_eq(raw, "s.whatsapp.net") {
        JidServer::SWhatsAppNet
    } else if str_eq(raw, "g.us") {
        JidServer::GUs
    } else if str_eq(raw, "broadcast") {
        JidServer::Broadcast
    } else if str_eq(raw, "lid") {
        JidServer::Lid
    } else if str_eq(raw, "hosted") {
        JidServer::Hosted
    } else if str_eq(raw, "hosted.lid") {
        JidServer::HostedLid
    } else if str_eq(raw, "newsletter") {
        JidServer::Newsletter
    } else if str_eq(raw, "call") {
        JidServer::Call
    } else if str_eq(raw, "bot") {
        JidServer::Bot
    } else {
        JidServer::Other
    }
}

proof fn lemma_index_of_found(s: Seq<char>, c: char, i: int)
    requires
        0 <= i < s.len(),
        s[i] == c,
        forall|j: int| 0 <= j < i ==> s[j] != c,
    ensures
        index_of(s, c) == i,
    decreases i,
{
    if i > 0 {
        lemma_index_of_found(s.drop_first(), c, i - 1);
    }
}

proof fn lemma_index_of_absent(s: Seq<char>, c: char)
    requires
        forall|j: int| 0 <= j < s.len() ==> s[j] != c,
    ensures
        index_of(s, c) == -1,
    decreases s.len(),
{
    if s.len() > 0 {
        lemma_index_of_absent(s.drop_first(), c);
    }
}

/// Position of the first `c` in `v[from..to]`, relative to `from`.
fn find_char(v: &[char], from: usize, to: usize, c: char) -> (r: Option<usize>)
    requires
        from <= to <= v@.len(),
    ensures
        match r {
            Some(i) => from + i < to && index_of(v@.subrange(from as int, to as int), c) == i,
            None => index_of(v@.subrange(from as int, to as int), c) == -1,
        },
{
    let ghost sub = v@.subrange(from as int, to as int);
    let mut i = from;
    while i < to
        invariant
            from <= i <= to <= v@.len(),
            sub == v@.subrange(from as int, to as int),
            forall|j: int| 0 <= j < i - from ==> sub[j] != c,
        decreases to - i,
    {
        if v[i] == c {
            proof {
                lemma_index_of_found(sub, c, i - from);
            }
            return Some(i - from);
        }
        i = i + 1;
    }
    proof {
        lemma_index_of_absent(sub, c);
    }
    None
}

pub open spec fn max9(k: nat) -> nat
    decreases k,
{
    if k == 0 {
        0
    } else {
        max9((k - 1) as nat) * 10 + 9
    }
}

proof fn lemma_max9_bound(k: nat)
    requires
        k <= 9,
    ensures
        max9(k) <= 999_999_999,
    decreases 9 - k,
{
    if k < 9 {
        lemma_max9_bound(k + 1);
    } else {
        reveal_with_fuel(max9, 10);
    }
}

/// Value of `v[from..to]` when it is one to nine ASCII digits.
fn parse_small_number(v: &[char], from: usize, to: usize) -> (r: Option<u32>)
    requires
        from <= to <= v@.len(),
    ensures
        opt_nat(r) == small_number(v@.subrange(from as int, to as int)),
{
    let ghost t = v@.subrange(from as int, to as int);
    if to - from == 0 || to - from > 9 {
        return None;
    }
    let mut val: u64 = 0;
    let mut i = from;
    while i < to
        invariant
            from <= i <= to <= v@.len(),
            to - from <= 9,
            t == v@.subrange(from as int, to as int),
            all_digits(t.take(i - from)),
            val == digits_value(t.take(i - from)),
            val <= max9((i - from) as nat),
        decreases to - i,
    {
        let c = v[i];
        if !('0' <= c && c <= '9') {
            assert(t[i - from] == c);
            assert(!is_digit(t[i - from]));
            assert(!all_digits(t));
            return None;
        }
        proof {
            lemma_max9_bound((i - from) as nat);
        }
        let d = (c as u32 - '0' as u32) as u64;
        assert(t.take(i - from + 1).drop_last() == t.take(i - from));
        assert(t.take(i - from + 1).last() == c);
        val = val * 10 + d;
        i = i + 1;
        assert(all_digits(t.take(i - from))) by {
            assert forall|j: int| 0 <= j < i - from implies is_digit(#[trigger] t.take(i - from)[j]) by {
                if j < i - from - 1 {
                    assert(t.take(i - from)[j] == t.take(i - from - 1)[j]);
                }
            }
        }
    }
    proof {
        assert(t.take(to - from) == t);
        lemma_max9_bound((to - from) as nat);
    }
    Some(val as u32)
}

/// Decodes `user[_agent][:device]@server`.
pub fn jid_decode(s: &str) -> (r: Option<Jid>)
    ensures
        match r {
            Some(j) => jid_parse(s@) == Some(j.parts()) && j.server == server_of(j.server_raw@),
            None => jid_parse(s@).is_none(),
        },
{
    let v = chars_of(s);
    let n = v.len();
    let at = match find_char(v.as_slice(), 0, n, '@') {
        Some(i) => i,
        None => {
            assert(v@.subrange(0, n as int) == s@);
            return None;
        },
    };
    assert(v@.subrange(0, n as int) == s@);
    let ghost userpart = s@.take(at as int);
    assert(v@.subrange(0, at as int) == userpart);
    // device
    let (ua_end, device) = match find_char(v.as_slice(), 0, at, ':') {
        Some(c) => {
            assert(userpart.skip(c + 1) == v@.subrange(c + 1, at as int));
            assert(userpart.take(c as int) == v@.subrange(0, c as int));
            match parse_small_number(v.as_slice(), c + 1, at) {
                Some(d) => (c, Some(d)),
                None => return None,
            }
        },
        None => (at, None),
    };
    let ghost user_agent = v@.subrange(0, ua_end as int);
    assert(split_number(userpart, ':') == Some((user_agent, opt_nat(device))));
    // agent
    let (user_end, agent) = match find_char(v.as_slice(), 0, ua_end, '_') {
        Some(c) => {
            assert(user_agent.skip(c + 1) == v@.subrange(c + 1, ua_end as int));
            assert(user_agent.take(c as int) == v@.subrange(0, c as int));
            match parse_small_number(v.as_slice(), c + 1, ua_end) {
                Some(a) => (c, Some(a)),
                None => return None,
            }
        },
        None => {
            assert(v@.subrange(0, ua_end as int) == user_agent);
            (ua_end, None)
        },
    };
    assert(split_number(user_agent, '_') == Some((v@.subrange(0, user_end as int), opt_nat(agent))));
    let user = string_from_chars(sub_chars(v.as_slice(), 0, user_end).as_slice());
    let server_raw = string_from_chars(sub_chars(v.as_slice(), at + 1, n).as_slice());
    assert(s@.skip(at + 1) == v@.subrange(at + 1, n as int));
    let server = classify_server(server_raw.as_str());
    Some(Jid { user, agent, device, server, server_raw })
}

/// Builds `user[_agent][:device]@server`.
pub fn jid_encode(user: &str, server: &str, device: Option<u32>, agent: Option<u32>) -> (r: String)
    ensures
        r@ == jid_text(user@, server@, device, agent),
{
    let mut out = owned(user);
    if let Some(a) = agent {
        out.append("_");
        let t = u64_to_string(a as u64);
        out.append(t.as_str());
    }
    if let Some(d) = device {
        out.append(":");
        let t = u64_to_string(d as u64);
        out.append(t.as_str());
    }
    out.append("@");
    out.append(server);
    proof {
        reveal_strlit("_");
        reveal_strlit(":");
        reveal_strlit("@");
    }
    out
}

pub open spec fn normalized_server(raw: Seq<char>) -> Seq<char> {
    if server_of(raw) == JidServer::CUs {
        "s.whatsapp.net"@
    } else {
        raw
    }
}

/// The JID's user on its canonical user server, without agent or device:
/// `user@server`, with `c.us` mapped to `s.whatsapp.net`.
pub open spec fn normalized_user_text(s: Seq<char>) -> Seq<char> {
    jid_text(jid_user(s), normalized_server(jid_server_raw(s)), None, None)
}

/// `user@server` of a JID, dropping agent and device and mapping `c.us` to
/// `s.whatsapp.net`; `None` for text that is not a JID.
pub fn jid_normalized_user(s: &str) -> (r: Option<String>)
    ensures
        match r {
            Some(t) => jid_valid(s@) && t@ == normalized_user_text(s@),
            None => !jid_valid(s@),
        },
{
    match jid_decode(s) {
        None => None,
        Some(j) => {
            let text = if j.server == JidServer::CUs {
                jid_encode(j.user.as_str(), S_WHATSAPP_NET, None, None)
            } else {
                jid_encode(j.user.as_str(), j.server_raw.as_str(), None, None)
            };
            Some(text)
        },
    }
}

/// Whether the two texts are JIDs of the same user.
pub fn same_user(left: &str, right: &str) -> (r: bool)
    ensures
        r == (jid_valid(left@) && jid_valid(right@) && jid_user(left@) == jid_user(right@)),
{
    match (jid_decode(left), jid_decode(right)) {
        (Some(l), Some(r)) => str_eq(l.user.as_str(), r.user.as_str()),
        _ => false,
    }
}

/// The canonical name of a server.
pub open spec fn server_name(s: JidServer) -> Seq<char> {
    match s {
        JidServer::CUs => "c.us"@,
        JidServer::SWhatsAppNet => "s.whatsapp.net"@,
        JidServer::GUs => "g.us"@,
        JidServer::Broadcast => "broadcast"@,
        JidServer::Lid => "lid"@,
        JidServer::Hosted => "hosted"@,
        JidServer::HostedLid => "hosted.lid"@,
        JidServer::Newsletter => "newsletter"@,
        JidServer::Call => "call"@,
        JidServer::Bot => "bot"@,
        JidServer::Other => Seq::empty(),
    }
}

/// The canonical name of a server (empty for an unknown one).
pub fn server_str(s: JidServer) -> (r: &'static str)
    ensures
        r@ == server_name(s),
{
    proof {
        reveal_strlit("");
    }
    match s {
        JidServer::CUs => "c.us",
        JidServer::SWhatsAppNet => "s.whatsapp.net",
        JidServer::GUs => "g.us",
        JidServer::Broadcast => "broadcast",
        JidServer::Lid => "lid",
        JidServer::Hosted => "hosted",
        JidServer::HostedLid => "hosted.lid",
        JidServer::Newsletter => "newsletter",
        JidServer::Call => "call",
        JidServer::Bot => "bot",
        JidServer::Other => "",
    }
}

} // verus!
