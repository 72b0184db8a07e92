//! The media connection: which hosts take uploads, with what credentials.

use crate::error::{protocol, CoreError, CoreResult};
use crate::inbound::{u64_of, opt_str_view};
use crate::jid::S_WHATSAPP_NET;
use crate::json::JsonValue;
use crate::media::link_preview::{is_success_status, parsed_url, url_parse};
use crate::media::{location_of_response, response_has_location, UploadedMediaLocation};
use crate::node::BinaryNode;
use crate::text::{concat2, concat3, owned, parse_u64, parse_usize, unsigned_text_value};
use vstd::prelude::*;

verus! {

/// A host that accepts media uploads.
#[derive(Clone, Debug, PartialEq, Eq)]
pub struct MediaUploadHost {
    pub hostname: String,
    pub max_content_length_bytes: Option<usize>,
    pub scheme: Option<String>,
}

impl MediaUploadHost {
    /// A host with no size limit and the default scheme.
    pub fn new(hostname: &str) -> (h: Self)
        ensures
            h.hostname@ == hostname@,
            h.max_content_length_bytes.is_none(),
            h.scheme.is_none(),
    {
        MediaUploadHost { hostname: owned(hostname), max_content_length_bytes: None, scheme: None }
    }

    /// This host with an upload size limit.
    pub fn with_max_content_length_bytes(self, max_content_length_bytes: usize) -> (h: Self)
        ensures
            h.hostname == self.hostname,
            h.max_content_length_bytes == Some(max_content_length_bytes),
            h.scheme == self.scheme,
    {
        MediaUploadHost { max_content_length_bytes: Some(max_content_length_bytes), ..self }
    }

    /// This host reached with the given URL scheme.
    pub fn with_scheme(self, scheme: &str) -> (h: Self)
        ensures
            h.hostname == self.hostname,
            h.max_content_length_bytes == self.max_content_length_bytes,
            h.scheme matches Some(s) && s@ == scheme@,
    {
        MediaUploadHost { scheme: Some(owned(scheme)), ..self }
    }

    /// The URL scheme for uploads: the configured one, else `https`.
    pub fn upload_scheme(&self) -> (s: &str)
        ensures
            s@ == match self.scheme {
                Some(x) => x@,
                None => "https"@,
            },
    {
        match &self.scheme {
            Some(s) => s.as_str(),
            None => "https",
        }
    }

    /// A copy of this host.
    pub fn copy(&self) -> (h: Self)
        ensures
            h.hostname@ == self.hostname@,
            h.max_content_length_bytes == self.max_content_length_bytes,
            crate::text::opt_view(h.scheme) == crate::text::opt_view(self.scheme),
    {
        MediaUploadHost {
            hostname: crate::text::clone_string(&self.hostname),
            max_content_length_bytes: self.max_content_length_bytes,
            scheme: crate::text::clone_opt_string(&self.scheme),
        }
    }
}

/// The upload hosts and credentials the server granted.
#[derive(Clone, Debug, PartialEq, Eq)]
pub struct MediaConnectionInfo {
    pub hosts: Vec<MediaUploadHost>,
    pub auth: String,
    pub ttl_seconds: u64,
}

impl MediaConnectionInfo {
    /// Connection info without hosts.
    pub fn new(auth: &str, ttl_seconds: u64) -> (c: Self)
        ensures
            c.hosts@.len() == 0,
            c.auth@ == auth@,
            c.ttl_seconds == ttl_seconds,
    {
        MediaConnectionInfo { hosts: Vec::new(), auth: owned(auth), ttl_seconds }
    }

    /// This connection info with the given upload hosts.
    pub fn with_hosts(self, hosts: Vec<MediaUploadHost>) -> (c: Self)
        ensures
            c.hosts == hosts,
            c.auth == self.auth,
            c.ttl_seconds == self.ttl_seconds,
    {
        MediaConnectionInfo { hosts, ..self }
    }
}

/// Transport settings for uploads and downloads over HTTP.
#[derive(Clone, Debug, PartialEq, Eq)]
pub struct HttpMediaTransportConfig {
    pub media_connection: MediaConnectionInfo,
    pub custom_upload_hosts: Vec<MediaUploadHost>,
    pub origin: String,
}

impl HttpMediaTransportConfig {
    /// Settings for the granted connection, with no custom hosts and the
    /// default origin.
    pub fn new(media_connection: MediaConnectionInfo) -> (c: Self)
        ensures
            c.media_connection == media_connection,
            c.custom_upload_hosts@.len() == 0,
            c.origin@ == crate::media::DEFAULT_MEDIA_ORIGIN@,
    {
        HttpMediaTransportConfig {
            media_connection,
            custom_upload_hosts: Vec::new(),
            origin: owned(crate::media::DEFAULT_MEDIA_ORIGIN),
        }
    }

    /// These settings with hosts that take uploads before the granted ones.
    pub fn with_custom_upload_hosts(self, hosts: Vec<MediaUploadHost>) -> (c: Self)
        ensures
            c.media_connection == self.media_connection,
            c.custom_upload_hosts == hosts,
            c.origin == self.origin,
    {
        HttpMediaTransportConfig { custom_upload_hosts: hosts, ..self }
    }

    /// These settings with another `Origin` header.
    pub fn with_origin(self, origin: &str) -> (c: Self)
        ensures
            c.media_connection == self.media_connection,
            c.custom_upload_hosts == self.custom_upload_hosts,
            c.origin@ == origin@,
    {
        HttpMediaTransportConfig { origin: owned(origin), ..self }
    }
}

/// The query that asks the server for a media connection.
pub fn build_media_connection_query(tag: &str) -> (n: BinaryNode)
    ensures
        n.tag@ == "iq"@,
        n.attr("id"@) == Some(tag@),
        n.attr("type"@) == Some("set"@),
        n.attr("xmlns"@) == Some("w:m"@),
        n.attr("to"@) == Some(S_WHATSAPP_NET@),
        forall|k: Seq<char>|
            k != "id"@ && k != "type"@ && k != "xmlns"@ && k != "to"@ ==> #[trigger] n.attr(k)
                is None,
        n.children().len() == 1,
        n.children()[0].tag@ == "media_conn"@,
        n.children()[0].attrs@.len() == 0,
        n.children()[0].content.is_none(),
{
    proof {
        reveal_strlit("id");
        reveal_strlit("type");
        reveal_strlit("xmlns");
        reveal_strlit("to");
        assert("id"@[0] != "to"@[0]);
        assert("type"@.len() != "xmlns"@.len());
        assert("type"@.len() != "to"@.len());
        assert("type"@.len() != "id"@.len());
        assert("xmlns"@.len() != "to"@.len());
        assert("xmlns"@.len() != "id"@.len());
    }
    let mut children: Vec<BinaryNode> = Vec::new();
    children.push(BinaryNode::new("media_conn"));
    let n0 = BinaryNode::new("iq");
    assert(forall|k: Seq<char>| #[trigger] n0.attr(k) is None);
    let n1 = n0.with_attr("id", tag);
    let n2 = n1.with_attr("type", "set");
    let n3 = n2.with_attr("xmlns", "w:m");
    let n4 = n3.with_attr("to", S_WHATSAPP_NET);
    let n = n4.with_nodes(children);
    assert forall|k: Seq<char>|
        k != "id"@ && k != "type"@ && k != "xmlns"@ && k != "to"@ implies #[trigger] n.attr(k)
            is None by {
        assert(n.attr(k) == n4.attr(k));
        assert(n4.attr(k) == n3.attr(k));
        assert(n3.attr(k) == n2.attr(k));
        assert(n2.attr(k) == n1.attr(k));
        assert(n1.attr(k) == n0.attr(k));
    }
    n
}

/// Whether a media connection response reports a failure: an `error` type
/// or an `error` child.
pub open spec fn is_error_result(node: BinaryNode) -> bool {
    node.attr("type"@) == Some("error"@) || node.children_tagged("error"@).len() > 0
}

/// The first of the error child's attribute `a`, the node's attribute `b`
/// or the node's attribute `c` that is present, else `fallback`.
pub open spec fn error_field(node: BinaryNode, a: Seq<char>, b: Seq<char>, c: Seq<char>, fallback: Seq<char>) -> Seq<char> {
    let errs = node.children_tagged("error"@);
    if errs.len() > 0 && errs[0].attr(a).is_some() {
        errs[0].attr(a).unwrap()
    } else if node.attr(b).is_some() {
        node.attr(b).unwrap()
    } else if node.attr(c).is_some() {
        node.attr(c).unwrap()
    } else {
        fallback
    }
}

/// The text of the failure a media connection response reports.
pub open spec fn connection_error_text(node: BinaryNode) -> Seq<char> {
    "media connection query failed ("@ + error_field(node, "code"@, "code"@, "error"@, "500"@)
        + "): "@ + error_field(node, "text"@, "text"@, "reason"@, "media connection query failed"@)
}

pub(crate) fn first_present<'a>(node: &'a BinaryNode, error: Option<&'a BinaryNode>, a: &str, b: &str, c: &str, fallback: &'a str) -> (r: &'a str)
    requires
        match error {
            Some(e) => node.children_tagged("error"@).len() > 0 && *e == node.children_tagged("error"@)[0],
            None => node.children_tagged("error"@).len() == 0,
        },
    ensures
        r@ == error_field(*node, a@, b@, c@, fallback@),
{
    if let Some(e) = error {
        if let Some(v) = e.attr_str(a) {
            return v;
        }
    }
    if let Some(v) = node.attr_str(b) {
        return v;
    }
    if let Some(v) = node.attr_str(c) {
        return v;
    }
    fallback
}

/// The failure a media connection response reports, if it reports one.
pub fn media_connection_error_from_result(node: &BinaryNode) -> (r: Option<CoreError>)
    ensures
        match r {
            Some(e) => {
                &&& is_error_result(*node)
                &&& e matches CoreError::Protocol(m) && m@ == connection_error_text(*node)
            },
            None => !is_error_result(*node),
        },
{
    let error_node = node.child_node("error");
    let typed_error = match node.attr_str("type") {
        Some(t) => crate::text::str_eq(t, "error"),
        None => false,
    };
    if !typed_error && error_node.is_none() {
        return None;
    }
    let code = first_present(node, error_node, "code", "code", "error", "500");
    let text = first_present(node, error_node, "text", "text", "reason", "media connection query failed");
    let m1 = concat3("media connection query failed (", code, "): ");
    Some(CoreError::Protocol(concat2(m1.as_str(), text)))
}

/// A host entry is usable: it names a host, and its size limit, if given,
/// is a number.
pub open spec fn host_ok(h: BinaryNode) -> bool {
    &&& h.attr("hostname"@).is_some()
    &&& match h.attr("maxContentLengthBytes"@) {
        Some(v) => usize_of(v).is_some(),
        None => true,
    }
}

pub open spec fn usize_of(v: Seq<char>) -> Option<usize> {
    match unsigned_text_value(v) {
        Some(x) => if x <= usize::MAX {
            Some(x as usize)
        } else {
            None
        },
        None => None,
    }
}

/// The `media_conn` node of a response: the node itself, or its first
/// `media_conn` child.
pub open spec fn media_conn_of(node: BinaryNode) -> Option<BinaryNode> {
    if node.tag@ == "media_conn"@ {
        Some(node)
    } else if node.children_tagged("media_conn"@).len() > 0 {
        Some(node.children_tagged("media_conn"@)[0])
    } else {
        None
    }
}

/// When a media connection response grants a connection.
pub open spec fn connection_ok(node: BinaryNode) -> bool {
    &&& !is_error_result(node)
    &&& media_conn_of(node) matches Some(mc) && {
        &&& mc.attr("auth"@).is_some()
        &&& mc.attr("ttl"@) matches Some(t) && u64_of(t).is_some()
        &&& forall|i: int|
            0 <= i < mc.children_tagged("host"@).len() ==> host_ok(
                #[trigger] mc.children_tagged("host"@)[i],
            )
        &&& mc.children_tagged("host"@).len() > 0
    }
}

/// The text of the error for an unusable host entry.
pub open spec fn host_fault(h: BinaryNode) -> Seq<char> {
    if h.attr("hostname"@).is_none() {
        "node "@ + h.tag@ + " missing required attribute hostname"@
    } else {
        "media connection host maxContentLengthBytes is not a number"@
    }
}

/// The text of the error for the first unusable host entry.
pub open spec fn hosts_fault(hosts: Seq<BinaryNode>) -> Seq<char>
    decreases hosts.len(),
{
    if hosts.len() == 0 {
        Seq::empty()
    } else if !host_ok(hosts[0]) {
        host_fault(hosts[0])
    } else {
        hosts_fault(hosts.drop_first())
    }
}

/// Usable host entries do not decide which error comes first.
proof fn lemma_hosts_fault_skip(hosts: Seq<BinaryNode>, j: int)
    requires
        0 <= j <= hosts.len(),
        forall|q: int| 0 <= q < j ==> host_ok(#[trigger] hosts[q]),
    ensures
        hosts_fault(hosts) == hosts_fault(hosts.skip(j)),
    decreases j,
{
    if j > 0 {
        assert(host_ok(hosts[0]));
        let rest = hosts.drop_first();
        assert forall|q: int| 0 <= q < j - 1 implies host_ok(#[trigger] rest[q]) by {
            assert(rest[q] == hosts[q + 1]);
        }
        lemma_hosts_fault_skip(rest, j - 1);
        assert(rest.skip(j - 1) == hosts.skip(j));
    } else {
        assert(hosts.skip(0) == hosts);
    }
}

/// The text of the error for a response that grants no connection: the
/// failure it reports, else the first rule of `connection_ok` that it
/// breaks.
pub open spec fn connection_fault(node: BinaryNode) -> Seq<char> {
    let mc = media_conn_of(node).unwrap();
    if is_error_result(node) {
        connection_error_text(node)
    } else if media_conn_of(node).is_none() {
        "media connection response missing media_conn node"@
    } else if mc.attr("auth"@).is_none() {
        "node "@ + mc.tag@ + " missing required attribute auth"@
    } else if mc.attr("ttl"@).is_none() {
        "node "@ + mc.tag@ + " missing required attribute ttl"@
    } else if u64_of(mc.attr("ttl"@).unwrap()).is_none() {
        "media connection ttl is not a number"@
    } else if !(forall|i: int|
        0 <= i < mc.children_tagged("host"@).len() ==> host_ok(#[trigger] mc.children_tagged("host"@)[i])) {
        hosts_fault(mc.children_tagged("host"@))
    } else {
        "media connection response has no upload hosts"@
    }
}

fn parse_host(host: &BinaryNode) -> (r: CoreResult<MediaUploadHost>)
    ensures
        match r {
            Ok(h) => host_ok(*host) && Some(h.hostname@) == host.attr("hostname"@)
                && h.max_content_length_bytes == match host.attr("maxContentLengthBytes"@) {
                Some(v) => usize_of(v),
                None => None,
            } && h.scheme.is_none(),
            Err(e) => !host_ok(*host) && (e matches CoreError::Protocol(m) && m@ == host_fault(*host)),
        },
{
    let hostname = match host.attr_str("hostname") {
        Some(h) => h,
        None => {
            return Err(
                CoreError::Protocol(
                    concat3("node ", host.tag.as_str(), " missing required attribute hostname"),
                ),
            );
        },
    };
    let mut upload_host = MediaUploadHost::new(hostname);
    if let Some(max) = host.attr_str("maxContentLengthBytes") {
        match parse_usize(max) {
            Some(n) => {
                upload_host.max_content_length_bytes = Some(n);
            },
            None => {
                return Err(
                    protocol("media connection host maxContentLengthBytes is not a number"),
                );
            },
        }
    }
    Ok(upload_host)
}

/// Reads the media connection the server granted, or the failure it reports.
pub fn parse_media_connection_info(node: &BinaryNode) -> (r: CoreResult<MediaConnectionInfo>)
    ensures
        match r {
            Ok(info) => {
                let mc = media_conn_of(*node).unwrap();
                let hosts = mc.children_tagged("host"@);
                &&& connection_ok(*node)
                &&& Some(info.auth@) == mc.attr("auth"@)
                &&& Some(info.ttl_seconds) == u64_of(mc.attr("ttl"@).unwrap())
                &&& info.hosts@.len() == hosts.len()
                &&& forall|i: int|
                    0 <= i < hosts.len() ==> Some((#[trigger] info.hosts@[i]).hostname@)
                        == hosts[i].attr("hostname"@) && info.hosts@[i].max_content_length_bytes
                        == match hosts[i].attr("maxContentLengthBytes"@) {
                        Some(v) => usize_of(v),
                        None => None,
                    } && info.hosts@[i].scheme.is_none()
            },
            Err(e) => !connection_ok(*node) && (e matches CoreError::Protocol(m) && m@ == connection_fault(
                *node,
            )),
        },
{
    if let Some(error) = media_connection_error_from_result(node) {
        return Err(error);
    }
    let media_conn: &BinaryNode = if crate::text::str_eq(node.tag.as_str(), "media_conn") {
        node
    } else {
        match node.child_node("media_conn") {
            Some(c) => c,
            None => {
                return Err(protocol("media connection response missing media_conn node"));
            },
        }
    };
    assert(media_conn_of(*node) == Some(*media_conn));
    let auth = match media_conn.attr_str("auth") {
        Some(a) => owned(a),
        None => {
            return Err(
                CoreError::Protocol(
                    concat3("node ", media_conn.tag.as_str(), " missing required attribute auth"),
                ),
            );
        },
    };
    let ttl_text = match media_conn.attr_str("ttl") {
        Some(t) => t,
        None => {
            return Err(
                CoreError::Protocol(
                    concat3("node ", media_conn.tag.as_str(), " missing required attribute ttl"),
                ),
            );
        },
    };
    let ttl_seconds = match parse_u64(ttl_text) {
        Some(t) => t,
        None => {
            return Err(protocol("media connection ttl is not a number"));
        },
    };
    let children = media_conn.child_list();
    let positions = media_conn.child_positions("host");
    let ghost tagged = media_conn.children_tagged("host"@);
    let mut hosts: Vec<MediaUploadHost> = Vec::new();
    let mut j: usize = 0;
    while j < positions.len()
        invariant
            0 <= j <= positions@.len(),
            positions@.len() == tagged.len(),
            children@ == media_conn.children(),
            tagged == media_conn.children_tagged("host"@),
            media_conn_of(*node) == Some(*media_conn),
            !is_error_result(*node),
            media_conn.attr("auth"@).is_some(),
            media_conn.attr("ttl"@) matches Some(t) && u64_of(t).is_some(),
            forall|q: int| 0 <= q < positions@.len() ==> #[trigger] positions@[q] < children@.len(),
            forall|q: int|
                0 <= q < positions@.len() ==> children@[#[trigger] positions@[q] as int] == tagged[q],
            hosts@.len() == j,
            forall|q: int| 0 <= q < j ==> host_ok(#[trigger] tagged[q]),
            forall|q: int|
                0 <= q < j ==> Some((#[trigger] hosts@[q]).hostname@) == tagged[q].attr(
                    "hostname"@,
                ) && hosts@[q].max_content_length_bytes == match tagged[q].attr(
                    "maxContentLengthBytes"@,
                ) {
                    Some(v) => usize_of(v),
                    None => None,
                } && hosts@[q].scheme.is_none(),
        decreases positions@.len() - j,
    {
        let host = &children[positions[j]];
        assert(*host == tagged[j as int]);
        let h = match parse_host(host) {
            Ok(h) => h,
            Err(e) => {
                assert(!host_ok(tagged[j as int]));
                let ghost mc = media_conn_of(*node).unwrap();
                assert(mc == *media_conn);
                assert(!host_ok(mc.children_tagged("host"@)[j as int]));
                proof {
                    lemma_hosts_fault_skip(tagged, j as int);
                    assert(tagged.skip(j as int)[0] == tagged[j as int]);
                }
                return Err(e);
            },
        };
        hosts.push(h);
        j = j + 1;
    }
    if hosts.len() == 0 {
        return Err(protocol("media connection response has no upload hosts"));
    }
    Ok(MediaConnectionInfo { hosts, auth, ttl_seconds })
}

/// What `reqwest::Url` makes of the URL that `url` parses to when its last
/// path segment is dropped if it is empty (`path_segments_mut`, then
/// `pop_if_empty`): the result's serialization, or nothing when `url` does
/// not parse or cannot be a base.
pub uninterp spec fn empty_segment_popped(url: Seq<char>) -> Option<Seq<char>>;

/// What `reqwest::Url` makes of the URL that `url` parses to when
/// `segment` is pushed onto its path (`path_segments_mut`, then `push`):
/// the result's serialization, or nothing when `url` does not parse or
/// cannot be a base.
pub uninterp spec fn segment_pushed(url: Seq<char>, segment: Seq<char>) -> Option<Seq<char>>;

/// What `reqwest::Url` makes of the URL that `url` parses to when the
/// query pair `key`=`value` is appended (`query_pairs_mut`, then
/// `append_pair`): the result's serialization, or nothing when `url` does
/// not parse.
pub uninterp spec fn query_pair_appended(url: Seq<char>, key: Seq<char>, value: Seq<char>) -> Option<Seq<char>>;

/// Drops an empty last path segment of the URL `url` with
/// `reqwest::Url::path_segments_mut` and `pop_if_empty`. The serialization
/// that comes out parses again: the url crate keeps every `Url` it builds
/// in a form that its parser reads back (an invariant it maintains, and
/// asserts in its own tests).
#[verifier::external_body]
fn url_pop_empty_segment(url: &str) -> (r: Option<String>)
    ensures
        crate::text::opt_view(r) == empty_segment_popped(url@),
        r matches Some(t) ==> parsed_url(t@).is_some(),
{
    let mut u = reqwest::Url::parse(url).ok()?;
    u.path_segments_mut().ok()?.pop_if_empty();
    Some(u.to_string())
}

/// Pushes `segment` onto the path of the URL `url` with
/// `reqwest::Url::path_segments_mut` and `push`. The serialization that
/// comes out parses again, by the same invariant of the url crate.
#[verifier::external_body]
fn url_push_segment(url: &str, segment: &str) -> (r: Option<String>)
    ensures
        crate::text::opt_view(r) == segment_pushed(url@, segment@),
        r matches Some(t) ==> parsed_url(t@).is_some(),
{
    let mut u = reqwest::Url::parse(url).ok()?;
    u.path_segments_mut().ok()?.push(segment);
    Some(u.to_string())
}

/// Appends the query pair `key`=`value` to the URL `url` with
/// `reqwest::Url::query_pairs_mut` and `append_pair`, which cannot fail on a
/// URL that parses. The serialization that comes out parses again, by the
/// same invariant of the url crate.
#[verifier::external_body]
fn url_append_query_pair(url: &str, key: &str, value: &str) -> (r: Option<String>)
    ensures
        crate::text::opt_view(r) == query_pair_appended(url@, key@, value@),
        parsed_url(url@).is_some() ==> r.is_some(),
        r matches Some(t) ==> parsed_url(t@).is_some(),
{
    let mut u = reqwest::Url::parse(url).ok()?;
    u.query_pairs_mut().append_pair(key, value);
    Some(u.to_string())
}

/// The upload URL built from a base URL text: the base parsed, an empty
/// last path segment dropped, `token` pushed as a path segment, then `auth`
/// and `token` appended as query pairs.
pub open spec fn upload_url_text(base: Seq<char>, token: Seq<char>, auth: Seq<char>) -> Option<Seq<char>> {
    match parsed_url(base) {
        None => None,
        Some((t0, _)) => match empty_segment_popped(t0) {
            None => None,
            Some(t1) => match segment_pushed(t1, token) {
                None => None,
                Some(t2) => match query_pair_appended(t2, "auth"@, auth) {
                    None => None,
                    Some(t3) => query_pair_appended(t3, "token"@, token),
                },
            },
        },
    }
}

/// Whether `m` is the text of the error for an upload URL that cannot be
/// built: an empty host, an empty auth token, a base that does not parse
/// (the parser's description follows the prefix), or a base that cannot
/// have path segments.
pub open spec fn upload_url_fault(host: MediaUploadHost, path: Seq<char>, auth: Seq<char>, m: Seq<char>) -> bool {
    let base = host_scheme(&host) + "://"@ + host.hostname@ + path;
    if host.hostname@.len() == 0 {
        m == "media upload host must not be empty"@
    } else if auth.len() == 0 {
        m == "media upload auth token must not be empty"@
    } else if parsed_url(base).is_none() {
        "invalid media upload URL: "@.is_prefix_of(m)
    } else {
        m == "media upload URL cannot be a base"@
    }
}

/// The URL a blob is uploaded to: `<scheme>://<host><path>/<token>` with
/// the `auth` and `token` query parameters. Host and auth token must not be
/// empty.
pub fn media_upload_url(host: &MediaUploadHost, path: &str, token: &str, auth: &str) -> (r: CoreResult<String>)
    ensures
        ({
            let base = host_scheme(host) + "://"@ + host.hostname@ + path@;
            match r {
                Ok(u) => host.hostname@.len() > 0 && auth@.len() > 0 && upload_url_text(base, token@, auth@) == Some(u@),
                Err(e) => {
                    &&& upload_url_for(*host, path@, token@, auth@).is_none()
                    &&& e matches CoreError::Payload(m) && upload_url_fault(*host, path@, auth@, m@)
                },
            }
        }),
{
    if host.hostname.as_str().is_empty() {
        return Err(crate::error::payload("media upload host must not be empty"));
    }
    if auth.is_empty() {
        return Err(crate::error::payload("media upload auth token must not be empty"));
    }
    let prefix = concat3(host.upload_scheme(), "://", host.hostname.as_str());
    let base = concat2(prefix.as_str(), path);
    let parsed = match url_parse(base.as_str()) {
        Ok((t, _)) => t,
        Err(reason) => {
            let m = concat2("invalid media upload URL: ", reason.as_str());
            assert(m@.take("invalid media upload URL: "@.len() as int) =~= "invalid media upload URL: "@);
            return Err(CoreError::Payload(m));
        },
    };
    let popped = match url_pop_empty_segment(parsed.as_str()) {
        Some(t) => t,
        None => {
            return Err(crate::error::payload("media upload URL cannot be a base"));
        },
    };
    let pushed = match url_push_segment(popped.as_str(), token) {
        Some(t) => t,
        None => {
            return Err(crate::error::payload("media upload URL cannot be a base"));
        },
    };
    proof {
        reveal_strlit("auth");
        reveal_strlit("token");
    }
    let with_auth = match url_append_query_pair(pushed.as_str(), "auth", auth) {
        Some(t) => t,
        None => {
            return Err(crate::error::payload("media upload URL cannot be a base"));
        },
    };
    match url_append_query_pair(with_auth.as_str(), "token", token) {
        Some(t) => Ok(t),
        None => Err(crate::error::payload("media upload URL cannot be a base")),
    }
}

/// The URL scheme a host takes uploads with.
pub open spec fn host_scheme(host: &MediaUploadHost) -> Seq<char> {
    match host.scheme {
        Some(x) => x@,
        None => "https"@,
    }
}

// ---------------------------------------------------------------------------
// Uploading over HTTP, one host after another.
// ---------------------------------------------------------------------------

/// The hosts an upload is offered to, in order: the custom hosts, then the
/// granted ones.
pub open spec fn upload_host_list(config: HttpMediaTransportConfig) -> Seq<MediaUploadHost> {
    config.custom_upload_hosts@ + config.media_connection.hosts@
}

/// What distinguishes a host: its name, size limit and scheme.
pub open spec fn host_view(h: MediaUploadHost) -> (Seq<char>, Option<usize>, Option<Seq<char>>) {
    (h.hostname@, h.max_content_length_bytes, crate::text::opt_view(h.scheme))
}

/// The hosts an upload is offered to, in order: the custom hosts, then the
/// granted ones.
pub fn upload_hosts(config: &HttpMediaTransportConfig) -> (r: Vec<MediaUploadHost>)
    ensures
        r@.len() == upload_host_list(*config).len(),
        forall|k: int| 0 <= k < r@.len() ==> host_view(#[trigger] r@[k]) == host_view(upload_host_list(*config)[k]),
{
    let ghost all = upload_host_list(*config);
    let custom = &config.custom_upload_hosts;
    let granted = &config.media_connection.hosts;
    let mut out: Vec<MediaUploadHost> = Vec::new();
    let mut i: usize = 0;
    while i < custom.len()
        invariant
            0 <= i <= custom@.len(),
            all == custom@ + granted@,
            out@.len() == i,
            forall|k: int| 0 <= k < i ==> host_view(#[trigger] out@[k]) == host_view(all[k]),
        decreases custom@.len() - i,
    {
        out.push(custom[i].copy());
        i = i + 1;
    }
    let mut j: usize = 0;
    while j < granted.len()
        invariant
            0 <= j <= granted@.len(),
            all == custom@ + granted@,
            out@.len() == custom@.len() + j,
            forall|k: int| 0 <= k < out@.len() ==> host_view(#[trigger] out@[k]) == host_view(all[k]),
        decreases granted@.len() - j,
    {
        out.push(granted[j].copy());
        j = j + 1;
    }
    out
}

/// Whether a host takes an upload of `len` bytes.
pub open spec fn host_accepts(h: MediaUploadHost, len: u64) -> bool {
    match h.max_content_length_bytes {
        Some(m) => len <= m,
        None => true,
    }
}

/// The first host at or after `from` that takes an upload of `len` bytes.
pub open spec fn first_accepting(hosts: Seq<MediaUploadHost>, len: u64, from: int) -> Option<int>
    decreases hosts.len() - from,
{
    if from < 0 || from >= hosts.len() {
        None
    } else if host_accepts(hosts[from], len) {
        Some(from)
    } else {
        first_accepting(hosts, len, from + 1)
    }
}

/// Why a host refused an upload of `len` bytes.
pub open spec fn rejection_text(h: MediaUploadHost, len: u64) -> Seq<char> {
    "host "@ + h.hostname@ + " rejects "@ + crate::text::decimal_chars(len as nat) + " bytes above max "@
        + crate::text::decimal_chars(h.max_content_length_bytes.unwrap() as nat)
}

/// The failure of an upload that no host took, with the last host's reason.
pub open spec fn exhausted_text(last: Option<Seq<char>>) -> Seq<char> {
    match last {
        Some(t) => "media upload failed on all hosts: "@ + t,
        None => "media upload failed on all hosts"@,
    }
}

/// The upload URL for a host, if one can be built (see [`media_upload_url`]).
pub open spec fn upload_url_for(h: MediaUploadHost, path: Seq<char>, token: Seq<char>, auth: Seq<char>) -> Option<Seq<char>> {
    if h.hostname@.len() > 0 && auth.len() > 0 {
        upload_url_text(host_scheme(&h) + "://"@ + h.hostname@ + path, token, auth)
    } else {
        None
    }
}

/// What an upload does next.
#[derive(Debug)]
pub enum UploadStep {
    /// Send the ciphertext to the host at this position, at this URL.
    Send { host: usize, url: String },
    /// No host is left; the upload failed.
    Exhausted(CoreError),
}

/// The next step of an upload of `len` bytes, trying hosts from position
/// `from` on; `last_error` is why the previous attempt failed. Hosts whose
/// size limit is below `len` are passed over, each becoming the latest
/// reason; the first host that takes the upload is sent to.
pub fn next_upload_step(
    hosts: &[MediaUploadHost],
    path: &str,
    token: &str,
    auth: &str,
    len: u64,
    from: usize,
    last_error: Option<&str>,
) -> (r: CoreResult<UploadStep>)
    ensures
        match first_accepting(hosts@, len, from as int) {
            Some(i) => match r {
                Ok(UploadStep::Send { host, url }) => host == i && upload_url_for(hosts@[i], path@, token@, auth@)
                    == Some(url@),
                Ok(UploadStep::Exhausted(_)) => false,
                Err(e) => upload_url_for(hosts@[i], path@, token@, auth@).is_none() && (e matches CoreError::Payload(
                    m,
                ) && upload_url_fault(hosts@[i], path@, auth@, m@)),
            },
            None => {
                let last = if from < hosts@.len() {
                    Some(rejection_text(hosts@[hosts@.len() - 1], len))
                } else {
                    match last_error {
                        Some(t) => Some(t@),
                        None => None,
                    }
                };
                r matches Ok(UploadStep::Exhausted(CoreError::Protocol(m))) && m@ == exhausted_text(last)
            },
        },
{
    let mut last: Option<String> = match last_error {
        Some(t) => Some(owned(t)),
        None => None,
    };
    let mut i = from;
    while i < hosts.len()
        invariant
            from <= i,
            from < hosts@.len() ==> i <= hosts@.len(),
            from >= hosts@.len() ==> i == from,
            first_accepting(hosts@, len, from as int) == first_accepting(hosts@, len, i as int),
            crate::text::opt_view(last) == if i > from {
                Some(rejection_text(hosts@[i - 1], len))
            } else {
                match last_error {
                    Some(t) => Some(t@),
                    None => None,
                }
            },
        decreases hosts@.len() - i,
    {
        let host = &hosts[i];
        match host.max_content_length_bytes {
            Some(max) => {
                if len > max as u64 {
                    let l = crate::text::u64_to_string(len);
                    let m = crate::text::u64_to_string(max as u64);
                    let a = concat3("host ", host.hostname.as_str(), " rejects ");
                    let b = concat3(a.as_str(), l.as_str(), " bytes above max ");
                    last = Some(concat2(b.as_str(), m.as_str()));
                    i = i + 1;
                    continue;
                }
            },
            None => {},
        }
        let url = media_upload_url(host, path, token, auth)?;
        return Ok(UploadStep::Send { host: i, url });
    }
    let text = match &last {
        Some(t) => concat2("media upload failed on all hosts: ", t.as_str()),
        None => owned("media upload failed on all hosts"),
    };
    Ok(UploadStep::Exhausted(CoreError::Protocol(text)))
}

/// What the reply to an upload attempt means: the stored location, or why
/// the attempt failed (to try the next host). `body` is the reply's JSON
/// document, or the parser's description of why it is not JSON.
pub fn upload_reply_outcome(status: u16, status_text: &str, body: Result<JsonValue, String>) -> (r: Result<UploadedMediaLocation, String>)
    ensures
        !is_success_status(status) ==> (r matches Err(t) && t@ == "media upload HTTP status "@ + status_text@),
        is_success_status(status) ==> match body {
            Err(p) => r matches Err(t) && t@ == "protocol error: media upload returned invalid JSON: "@ + p@,
            Ok(doc) => match r {
                Ok(l) => response_has_location(doc) && location_of_response(doc, l),
                Err(t) => !response_has_location(doc) && t@ == "protocol error: "@
                    + "media upload response missing URL and direct path"@,
            },
        },
{
    if !(200 <= status && status < 300) {
        return Err(concat2("media upload HTTP status ", status_text));
    }
    match body {
        Err(p) => Err(concat2("protocol error: media upload returned invalid JSON: ", p.as_str())),
        Ok(doc) => match crate::media::uploaded_media_location_from_response(&doc) {
            Ok(l) => Ok(l),
            Err(e) => Err(e.message()),
        },
    }
}

} // verus!
