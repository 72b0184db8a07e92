//! WMex: GraphQL-style queries carried in `iq` stanzas, with JSON bodies.
//!
//! The library frames the query payload and checks the response stanza; the
//! JSON document itself is read by the caller's JSON parser and handed back
//! as a [`JsonValue`], from which the requested data is selected.

use crate::error::{payload, protocol, CoreError, CoreResult};
use crate::json::{json_field, take_field, JsonValue};
use crate::media::connection::{error_field, first_present, is_error_result};
use crate::node::{BinaryNode, NodeContent};
use crate::text::{concat2, concat3, owned, trim, trimmed, u64_to_string, decimal_chars};
use vstd::prelude::*;
use vstd::utf8::encode_utf8;

verus! {

pub const WMEX_XMLNS: &'static str = "w:mex";

pub const WMEX_SERVER: &'static str = "s.whatsapp.net";

/// Default ceiling on the size of a WMex JSON result.
pub const DEFAULT_MAX_WMEX_JSON_BYTES: usize = 1048576;

/// The non-blank `message` strings of a list of server errors, in order.
pub open spec fn error_messages(errors: Seq<JsonValue>) -> Seq<Seq<char>>
    decreases errors.len(),
{
    if errors.len() == 0 {
        Seq::empty()
    } else {
        let rest = error_messages(errors.drop_last());
        match errors.last().field("message"@) {
            Some(JsonValue::Text(m)) => if trimmed(m@).len() > 0 {
                rest.push(m@)
            } else {
                rest
            },
            _ => rest,
        }
    }
}

/// Strings joined with `", "`.
pub open spec fn joined(parts: Seq<Seq<char>>) -> Seq<char>
    decreases parts.len(),
{
    if parts.len() == 0 {
        Seq::empty()
    } else if parts.len() == 1 {
        parts[0]
    } else {
        joined(parts.drop_last()) + ", "@ + parts.last()
    }
}

/// The numeric code of the first server error (`extensions.error_code`).
pub open spec fn first_error_code(errors: Seq<JsonValue>) -> Option<u64> {
    if errors.len() == 0 {
        None
    } else {
        match errors[0].field("extensions"@) {
            Some(ext) => match ext.field("error_code"@) {
                Some(code) => code.as_u64(),
                None => None,
            },
            None => None,
        }
    }
}

/// The text that reports a list of server errors.
pub open spec fn server_error_text(errors: Seq<JsonValue>) -> Seq<char> {
    let messages = error_messages(errors);
    match first_error_code(errors) {
        Some(code) => if messages.len() > 0 {
            "WMex server error "@ + decimal_chars(code as nat) + ": "@ + joined(messages)
        } else {
            "WMex server error "@ + decimal_chars(code as nat)
        },
        None => if messages.len() > 0 {
            "WMex server error: "@ + joined(messages)
        } else {
            "WMex server error"@
        },
    }
}

/// The text of the failure a WMex response stanza reports.
pub open spec fn wmex_failure_text(node: BinaryNode) -> Seq<char> {
    "WMex query failed ("@ + error_field(node, "code"@, "code"@, "error"@, "500"@) + "): "@
        + error_field(node, "text"@, "text"@, "reason"@, "WMex query failed"@)
}

/// The JSON bytes a result node carries: its bytes, or the UTF-8 of its text.
pub open spec fn json_content(node: BinaryNode) -> Option<Seq<u8>> {
    match node.content {
        Some(NodeContent::Bytes(b)) => Some(b@),
        Some(NodeContent::Text(t)) => Some(encode_utf8(t@)),
        _ => None,
    }
}

/// The payload of a WMex query: `{"variables":<variables>}`.
pub open spec fn wmex_payload(variables_json: Seq<u8>) -> Seq<u8> {
    encode_utf8("{\"variables\":"@) + variables_json + encode_utf8("}"@)
}

fn push_slice(out: &mut Vec<u8>, b: &[u8])
    ensures
        final(out)@ == old(out)@ + b@,
{
    let mut i: usize = 0;
    while i < b.len()
        invariant
            0 <= i <= b@.len(),
            out@ == old(out)@ + b@.take(i as int),
        decreases b@.len() - i,
    {
        out.push(b[i]);
        assert(b@.take(i as int + 1) == b@.take(i as int).push(b@[i as int]));
        i = i + 1;
    }
    assert(b@.take(b@.len() as int) == b@);
}

/// Builds a WMex query stanza. `variables_json` is the JSON text of the
/// query variables; the query id must not be blank.
pub fn build_wmex_query(variables_json: &[u8], query_id: &str, tag: &str) -> (r: CoreResult<BinaryNode>)
    ensures
        match r {
            Ok(n) => {
                &&& trimmed(query_id@).len() > 0
                &&& n.tag@ == "iq"@
                &&& n.attrs@.len() == 4
                &&& n.attrs@[0].0@ == "id"@ && n.attrs@[0].1@ == tag@
                &&& n.attrs@[1].0@ == "type"@ && n.attrs@[1].1@ == "get"@
                &&& n.attrs@[2].0@ == "to"@ && n.attrs@[2].1@ == WMEX_SERVER@
                &&& n.attrs@[3].0@ == "xmlns"@ && n.attrs@[3].1@ == WMEX_XMLNS@
                &&& n.children().len() == 1
                &&& n.children()[0].tag@ == "query"@
                &&& n.children()[0].attrs@.len() == 1
                &&& n.children()[0].attrs@[0].0@ == "query_id"@
                &&& n.children()[0].attrs@[0].1@ == query_id@
                &&& n.children()[0].bytes_content() == Some(wmex_payload(variables_json@))
            },
            Err(e) => trimmed(query_id@).len() == 0 && (e matches CoreError::Protocol(m) && m@
                == "WMex query id must not be empty"@),
        },
{
    let trimmed_id = trim(query_id);
    if trimmed_id.as_str().is_empty() {
        return Err(protocol("WMex query id must not be empty"));
    }
    let mut bytes: Vec<u8> = Vec::new();
    push_slice(&mut bytes, "{\"variables\":".as_bytes());
    push_slice(&mut bytes, variables_json);
    push_slice(&mut bytes, "}".as_bytes());
    let query = BinaryNode {
        tag: owned("query"),
        attrs: vec![(owned("query_id"), owned(query_id))],
        content: Some(NodeContent::Bytes(bytes)),
    };
    let iq = BinaryNode {
        tag: owned("iq"),
        attrs: vec![
            (owned("id"), owned(tag)),
            (owned("type"), owned("get")),
            (owned("to"), owned(WMEX_SERVER)),
            (owned("xmlns"), owned(WMEX_XMLNS)),
        ],
        content: Some(NodeContent::Nodes(vec![query])),
    };
    Ok(iq)
}

/// The failure a WMex response stanza reports: an `error` type or an
/// `error` child, with its code and text.
pub fn wmex_stanza_error(node: &BinaryNode) -> (r: Option<CoreError>)
    ensures
        match r {
            Some(e) => is_error_result(*node) && (e matches CoreError::Protocol(m) && m@
                == wmex_failure_text(*node)),
            None => !is_error_result(*node),
        },
{
    let error_node = node.child_node("error");
    let typed_error = match node.attr_str("type") {
        Some(t) => crate::text::str_eq(t, "error"),
        None => false,
    };
    if !typed_error && error_node.is_none() {
        return None;
    }
    let code = first_present(node, error_node, "code", "code", "error", "500");
    let text = first_present(node, error_node, "text", "text", "reason", "WMex query failed");
    let m1 = concat3("WMex query failed (", code, "): ");
    Some(CoreError::Protocol(concat2(m1.as_str(), text)))
}

/// When the JSON of a WMex response can be read: the limit is positive, the
/// stanza reports no failure, it has a `result` child with bytes or text,
/// and those fit the limit.
pub open spec fn wmex_result_ok(node: BinaryNode, max_json_bytes: usize) -> bool {
    &&& max_json_bytes > 0
    &&& !is_error_result(node)
    &&& node.children_tagged("result"@).len() > 0
    &&& json_content(node.children_tagged("result"@)[0]) matches Some(b) && b.len() <= max_json_bytes
}

/// Checks a WMex response stanza and returns the JSON bytes of its result,
/// which must not exceed `max_json_bytes`.
pub fn wmex_result_json(node: &BinaryNode, max_json_bytes: usize) -> (r: CoreResult<Vec<u8>>)
    ensures
        match r {
            Ok(b) => wmex_result_ok(*node, max_json_bytes) && Some(b@) == json_content(
                node.children_tagged("result"@)[0],
            ),
            Err(e) => !wmex_result_ok(*node, max_json_bytes) && (if max_json_bytes == 0 {
                e matches CoreError::Payload(m) && m@
                    == "WMex JSON byte limit must be greater than zero"@
            } else if is_error_result(*node) {
                e matches CoreError::Protocol(m) && m@ == wmex_failure_text(*node)
            } else if node.children_tagged("result"@).len() == 0 {
                e matches CoreError::Protocol(m) && m@ == "WMex response missing result node"@
            } else {
                let res = node.children_tagged("result"@)[0];
                match json_content(res) {
                    Some(b) => e matches CoreError::Payload(m) && m@
                        == "WMex result exceeds configured JSON limit: "@ + decimal_chars(
                        b.len(),
                    ) + " bytes exceeds "@ + decimal_chars(max_json_bytes as nat),
                    None => e matches CoreError::Protocol(m) && m@ == if res.content.is_none() {
                        "WMex result content is missing"@
                    } else {
                        "WMex result content must be JSON bytes or text"@
                    },
                }
            }),
        },
{
    if max_json_bytes == 0 {
        return Err(payload("WMex JSON byte limit must be greater than zero"));
    }
    if let Some(error) = wmex_stanza_error(node) {
        return Err(error);
    }
    let result = match node.child_node("result") {
        Some(c) => c,
        None => {
            return Err(protocol("WMex response missing result node"));
        },
    };
    let bytes: Vec<u8> = match &result.content {
        Some(NodeContent::Bytes(b)) => crate::text::copy_bytes(b.as_slice()),
        Some(NodeContent::Text(t)) => crate::text::copy_bytes(t.as_str().as_bytes()),
        Some(NodeContent::Nodes(_)) => {
            return Err(protocol("WMex result content must be JSON bytes or text"));
        },
        None => {
            return Err(protocol("WMex result content is missing"));
        },
    };
    if bytes.len() > max_json_bytes {
        let len_text = u64_to_string(bytes.len() as u64);
        let max_text = u64_to_string(max_json_bytes as u64);
        let m1 = concat3("WMex result exceeds configured JSON limit: ", len_text.as_str(), " bytes exceeds ");
        return Err(CoreError::Payload(concat2(m1.as_str(), max_text.as_str())));
    }
    Ok(bytes)
}

/// The text that reports a list of server errors.
fn wmex_error_message(errors: &[JsonValue]) -> (s: String)
    ensures
        s@ == server_error_text(errors@),
{
    let mut messages: Vec<&str> = Vec::new();
    let mut i: usize = 0;
    while i < errors.len()
        invariant
            0 <= i <= errors@.len(),
            messages@.len() == error_messages(errors@.take(i as int)).len(),
            forall|k: int| 0 <= k < messages@.len() ==> #[trigger] messages@[k]@
                == error_messages(errors@.take(i as int))[k],
        decreases errors@.len() - i,
    {
        assert(errors@.take(i as int + 1).drop_last() == errors@.take(i as int));
        assert(errors@.take(i as int + 1).last() == errors@[i as int]);
        if let Some(JsonValue::Text(m)) = json_field(&errors[i], "message") {
            let t = trim(m.as_str());
            if !t.as_str().is_empty() {
                messages.push(m.as_str());
            }
        }
        i = i + 1;
    }
    assert(errors@.take(errors@.len() as int) == errors@);
    let ghost ms = error_messages(errors@);
    let mut joined_text = String::new();
    let mut j: usize = 0;
    while j < messages.len()
        invariant
            0 <= j <= messages@.len(),
            messages@.len() == ms.len(),
            forall|k: int| 0 <= k < messages@.len() ==> #[trigger] messages@[k]@ == ms[k],
            joined_text@ == joined(ms.take(j as int)),
        decreases messages@.len() - j,
    {
        assert(ms.take(j as int + 1).drop_last() == ms.take(j as int));
        if j > 0 {
            joined_text = concat2(joined_text.as_str(), ", ");
        }
        joined_text = concat2(joined_text.as_str(), messages[j]);
        j = j + 1;
    }
    assert(ms.take(ms.len() as int) == ms);
    let code: Option<u64> = if errors.len() == 0 {
        None
    } else {
        match json_field(&errors[0], "extensions") {
            Some(ext) => match json_field(ext, "error_code") {
                Some(JsonValue::Number(t)) => crate::text::parse_u64(t.as_str()),
                _ => None,
            },
            None => None,
        }
    };
    match code {
        Some(c) => {
            let c_text = u64_to_string(c);
            if messages.len() > 0 {
                let m1 = concat3("WMex server error ", c_text.as_str(), ": ");
                concat2(m1.as_str(), joined_text.as_str())
            } else {
                concat2("WMex server error ", c_text.as_str())
            }
        },
        None => {
            if messages.len() > 0 {
                concat2("WMex server error: ", joined_text.as_str())
            } else {
                owned("WMex server error")
            }
        },
    }
}

/// The data a WMex JSON response carries: the whole `data` member when
/// `data_path` is empty, else its member `data_path`. A non-empty `errors`
/// list makes the response a failure.
pub fn wmex_select_data(document: JsonValue, data_path: &str) -> (r: CoreResult<JsonValue>)
    ensures
        match document.field("errors"@) {
            Some(JsonValue::Array(errors)) if errors@.len() > 0 => r matches Err(
                CoreError::Protocol(m),
            ) && m@ == server_error_text(errors@),
            _ => match document.field("data"@) {
                None => r matches Err(CoreError::Protocol(m)) && m@
                    == "WMex response missing data object"@,
                Some(data) => if data_path@.len() == 0 {
                    r == Ok::<JsonValue, CoreError>(data)
                } else {
                    match data.field(data_path@) {
                        Some(v) => r == Ok::<JsonValue, CoreError>(v),
                        None => r matches Err(CoreError::Protocol(m)) && m@
                            == "WMex response missing data path: "@ + data_path@,
                    }
                },
            },
        },
{
    if let Some(JsonValue::Array(errors)) = json_field(&document, "errors") {
        if errors.len() > 0 {
            return Err(CoreError::Protocol(wmex_error_message(errors.as_slice())));
        }
    }
    let data = match take_field(document, "data") {
        Some(d) => d,
        None => {
            return Err(protocol("WMex response missing data object"));
        },
    };
    if data_path.is_empty() {
        return Ok(data);
    }
    match take_field(data, data_path) {
        Some(v) => Ok(v),
        None => Err(concat_missing_path(data_path)),
    }
}

fn concat_missing_path(data_path: &str) -> (e: CoreError)
    ensures
        e matches CoreError::Protocol(m) && m@ == "WMex response missing data path: "@ + data_path@,
{
    CoreError::Protocol(concat2("WMex response missing data path: ", data_path))
}

} // verus!
