use wa_core::json::JsonValue;
use wa_core::mex::{
    build_wmex_query, wmex_result_json, wmex_select_data, wmex_stanza_error,
    DEFAULT_MAX_WMEX_JSON_BYTES, WMEX_SERVER, WMEX_XMLNS,
};
use wa_core::node::BinaryNode;
use wa_core::error::CoreError;

fn to_model(value: &serde_json::Value) -> JsonValue {
    match value {
        serde_json::Value::Null => JsonValue::Null,
        serde_json::Value::Bool(b) => JsonValue::Bool(*b),
        serde_json::Value::Number(n) => JsonValue::Number(n.to_string()),
        serde_json::Value::String(s) => JsonValue::Text(s.clone()),
        serde_json::Value::Array(items) => JsonValue::Array(items.iter().map(to_model).collect()),
        serde_json::Value::Object(map) => {
            JsonValue::Object(map.iter().map(|(k, v)| (k.clone(), to_model(v))).collect())
        }
    }
}

fn parse_response(node: &BinaryNode, data_path: &str) -> Result<JsonValue, CoreError> {
    let bytes = wmex_result_json(node, DEFAULT_MAX_WMEX_JSON_BYTES)?;
    let value: serde_json::Value = serde_json::from_slice(&bytes)
        .map_err(|err| CoreError::Protocol(format!("invalid WMex JSON response: {err}")))?;
    wmex_select_data(to_model(&value), data_path)
}

fn protocol_text(result: Result<JsonValue, CoreError>) -> String {
    match result {
        Err(CoreError::Protocol(message)) => message,
        other => panic!("expected a protocol error, got {other:?}"),
    }
}

#[test]
fn builds_wmex_query_with_json_variables() {
    let variables = serde_json::to_vec(&serde_json::Value::Object(
        [("newsletter_id".to_owned(), serde_json::Value::String("abc@newsletter".to_owned()))]
            .into_iter()
            .collect(),
    ))
    .unwrap();
    let query = build_wmex_query(&variables, "123", "q-1").unwrap();

    assert_eq!(query.tag, "iq");
    assert_eq!(query.attr_str("id"), Some("q-1"));
    assert_eq!(query.attr_str("type"), Some("get"));
    assert_eq!(query.attr_str("to"), Some(WMEX_SERVER));
    assert_eq!(query.attr_str("xmlns"), Some(WMEX_XMLNS));

    let children = query.child_list();
    assert_eq!(children[0].tag, "query");
    assert_eq!(children[0].attr_str("query_id"), Some("123"));
    let bytes = children[0].content_bytes().unwrap();
    let value: serde_json::Value = serde_json::from_slice(bytes).unwrap();
    let expected: serde_json::Value =
        serde_json::from_str(r#"{ "variables": { "newsletter_id": "abc@newsletter" } }"#).unwrap();
    assert_eq!(value, expected);
}

#[test]
fn wmex_query_payload_wraps_variables_verbatim() {
    let query = build_wmex_query(b"[1,2]", "q", "t").unwrap();
    let bytes = query.child_list()[0].content_bytes().unwrap();
    assert_eq!(bytes.as_slice(), br#"{"variables":[1,2]}"#);
    let err = build_wmex_query(b"{}", "  ", "t").unwrap_err();
    assert_eq!(err.message(), "protocol error: WMex query id must not be empty");
}

#[test]
fn parses_wmex_result_and_server_errors() {
    let ok = BinaryNode::new("iq").with_nodes(vec![
        BinaryNode::new("result").with_bytes(br#"{"data":{"path":{"ok":true}}}"#.to_vec()),
    ]);
    assert_eq!(
        parse_response(&ok, "path").unwrap(),
        JsonValue::Object(vec![("ok".to_owned(), JsonValue::Bool(true))])
    );

    let err = BinaryNode::new("iq").with_nodes(vec![BinaryNode::new("result").with_bytes(
        br#"{"errors":[{"message":"denied","extensions":{"error_code":403}}]}"#.to_vec(),
    )]);
    assert_eq!(protocol_text(parse_response(&err, "path")), "WMex server error 403: denied");

    let attr_error = BinaryNode::new("iq")
        .with_attr("type", "error")
        .with_attr("code", "429")
        .with_attr("text", "rate limited");
    assert_eq!(protocol_text(parse_response(&attr_error, "path")), "WMex query failed (429): rate limited");

    let child_error = BinaryNode::new("iq").with_attr("type", "result").with_nodes(vec![
        BinaryNode::new("error").with_attr("code", "503").with_attr("text", "try later"),
    ]);
    assert_eq!(protocol_text(parse_response(&child_error, "path")), "WMex query failed (503): try later");
}

#[test]
fn wmex_server_error_texts_cover_codes_and_messages() {
    let errors = |items: Vec<JsonValue>| JsonValue::Object(vec![("errors".to_owned(), JsonValue::Array(items))]);
    let message = |m: &str| JsonValue::Object(vec![("message".to_owned(), JsonValue::Text(m.to_owned()))]);
    let coded = JsonValue::Object(vec![(
        "extensions".to_owned(),
        JsonValue::Object(vec![("error_code".to_owned(), JsonValue::Number("7".to_owned()))]),
    )]);
    assert_eq!(protocol_text(wmex_select_data(errors(vec![coded]), "")), "WMex server error 7");
    assert_eq!(
        protocol_text(wmex_select_data(errors(vec![message("a"), message("  "), message("b")]), "")),
        "WMex server error: a, b"
    );
    assert_eq!(protocol_text(wmex_select_data(errors(vec![JsonValue::Null]), "")), "WMex server error");
    let float_code = JsonValue::Object(vec![(
        "extensions".to_owned(),
        JsonValue::Object(vec![("error_code".to_owned(), JsonValue::Number("1.5".to_owned()))]),
    )]);
    assert_eq!(protocol_text(wmex_select_data(errors(vec![float_code]), "")), "WMex server error");
}

#[test]
fn wmex_data_selection() {
    let doc = || {
        JsonValue::Object(vec![
            ("errors".to_owned(), JsonValue::Array(vec![])),
            ("data".to_owned(), JsonValue::Object(vec![("x".to_owned(), JsonValue::Number("1".to_owned()))])),
        ])
    };
    assert_eq!(
        wmex_select_data(doc(), "").unwrap(),
        JsonValue::Object(vec![("x".to_owned(), JsonValue::Number("1".to_owned()))])
    );
    assert_eq!(wmex_select_data(doc(), "x").unwrap(), JsonValue::Number("1".to_owned()));
    assert_eq!(protocol_text(wmex_select_data(doc(), "y")), "WMex response missing data path: y");
    assert_eq!(
        protocol_text(wmex_select_data(JsonValue::Object(vec![]), "")),
        "WMex response missing data object"
    );
}

#[test]
fn wmex_result_stage_errors() {
    let ok = BinaryNode::new("iq").with_nodes(vec![BinaryNode::new("result").with_text("{}")]);
    assert_eq!(wmex_result_json(&ok, 2).unwrap(), b"{}".to_vec());
    assert_eq!(
        wmex_result_json(&ok, 1).unwrap_err().message(),
        "payload error: WMex result exceeds configured JSON limit: 2 bytes exceeds 1"
    );
    assert_eq!(
        wmex_result_json(&ok, 0).unwrap_err().message(),
        "payload error: WMex JSON byte limit must be greater than zero"
    );
    let missing = BinaryNode::new("iq");
    assert_eq!(
        wmex_result_json(&missing, 10).unwrap_err().message(),
        "protocol error: WMex response missing result node"
    );
    let empty = BinaryNode::new("iq").with_nodes(vec![BinaryNode::new("result")]);
    assert_eq!(
        wmex_result_json(&empty, 10).unwrap_err().message(),
        "protocol error: WMex result content is missing"
    );
    let nested = BinaryNode::new("iq").with_nodes(vec![BinaryNode::new("result").with_nodes(vec![])]);
    assert_eq!(
        wmex_result_json(&nested, 10).unwrap_err().message(),
        "protocol error: WMex result content must be JSON bytes or text"
    );
    let defaulted = BinaryNode::new("iq").with_attr("type", "error");
    assert_eq!(
        wmex_stanza_error(&defaulted).unwrap().message(),
        "protocol error: WMex query failed (500): WMex query failed"
    );
    assert!(wmex_stanza_error(&ok).is_none());
}
