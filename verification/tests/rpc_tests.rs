use nlm::json::Json;
use nlm::notebooklm::rpc::{
    decode_chunks, find_rpc_payload, payload_lines, rpc_body, rpc_envelope, rpc_url, strip_anti_xssi, RpcPayload,
    BATCHEXECUTE_URL, LIST_NOTEBOOKS,
};

fn t(s: &str) -> Json {
    Json::Str(s.to_string())
}

fn arr(v: Vec<Json>) -> Json {
    Json::Array(v)
}

#[test]
fn rpc_url_percent_encodes_the_source_path() {
    assert_eq!(
        rpc_url("rLM1Ne", "sid-9", "/notebook/abc 1"),
        format!("{BATCHEXECUTE_URL}?rpcids=rLM1Ne&source-path=%2Fnotebook%2Fabc%201&f.sid=sid-9&rt=c")
    );
    assert_eq!(
        rpc_url(LIST_NOTEBOOKS, "s", "/"),
        "https://notebooklm.google.com/_/LabsTailwindUi/data/batchexecute?rpcids=wXbhsf&source-path=%2F&f.sid=s&rt=c"
    );
}

#[test]
fn rpc_url_encodes_utf8_bytes() {
    assert!(rpc_url("m", "s", "/é").contains("source-path=%2F%C3%A9&"));
}

#[test]
fn rpc_envelope_double_encodes_params() {
    assert_eq!(
        rpc_envelope("wXbhsf", "[null,1,null,[2]]"),
        "[[[\"wXbhsf\",\"[null,1,null,[2]]\",null,\"generic\"]]]"
    );
    assert_eq!(
        rpc_envelope("m", "[\"a\\\"b\"]"),
        "[[[\"m\",\"[\\\"a\\\\\\\"b\\\"]\",null,\"generic\"]]]"
    );
    assert_eq!(rpc_envelope("m", "x\ny\u{1}"), "[[[\"m\",\"x\\ny\\u0001\",null,\"generic\"]]]");
}

#[test]
fn rpc_body_is_form_encoded() {
    assert_eq!(
        rpc_body("wXbhsf", "[null,1,null,[2]]", "tok/=+"),
        "f.req=%5B%5B%5B%22wXbhsf%22%2C%22%5Bnull%2C1%2Cnull%2C%5B2%5D%5D%22%2Cnull%2C%22generic%22%5D%5D%5D&at=tok%2F%3D%2B&"
    );
}

#[test]
fn anti_xssi_prefix_is_stripped_once() {
    assert_eq!(strip_anti_xssi(")]}'\n12\n[1]"), "12\n[1]");
    assert_eq!(strip_anti_xssi("[1]"), "[1]");
    assert_eq!(strip_anti_xssi(")]}'"), ")]}'");
    assert_eq!(strip_anti_xssi(")]}'\n)]}'\nx"), ")]}'\nx");
}

#[test]
fn payload_lines_skip_byte_counts_and_blank_lines() {
    let body = ")]}'\n\n105\n[[\"wrb.fr\",\"wXbhsf\",\"[1]\"]]\r\n  25  \n  [[\"di\",42]]  \n\n";
    assert_eq!(payload_lines(body), vec!["[[\"wrb.fr\",\"wXbhsf\",\"[1]\"]]", "[[\"di\",42]]"]);
    assert_eq!(payload_lines(""), Vec::<String>::new());
    assert_eq!(payload_lines("abc"), vec!["abc"]);
}

#[test]
fn rpc_payload_is_found_by_tag_and_method() {
    let chunk = arr(vec![
        arr(vec![t("wrb.fr"), t("other"), t("[0]")]),
        arr(vec![t("xx"), t("wXbhsf"), t("[9]")]),
        arr(vec![t("wrb.fr"), t("wXbhsf"), t("[[\"nb\"]]"), Json::Null]),
        arr(vec![t("wrb.fr"), t("wXbhsf"), t("[2]")]),
    ]);
    match find_rpc_payload(chunk, "wXbhsf") {
        Some(RpcPayload::Encoded(s)) => assert_eq!(s, "[[\"nb\"]]"),
        _ => panic!("expected the encoded payload"),
    }
    let null_result = arr(vec![arr(vec![t("wrb.fr"), t("m"), Json::Null, t("raw detail")])]);
    match find_rpc_payload(null_result, "m") {
        Some(RpcPayload::NullResult(Json::Array(item))) => {
            assert_eq!(item.len(), 4);
            assert!(matches!(&item[3], Json::Str(s) if s == "raw detail"));
        }
        _ => panic!("expected a null result with its raw item"),
    }
    let short = arr(vec![arr(vec![t("wrb.fr"), t("m")])]);
    assert!(matches!(find_rpc_payload(short, "m"), Some(RpcPayload::NullResult(Json::Array(ref v))) if v.len() == 2));
    let parsed = arr(vec![arr(vec![t("wrb.fr"), t("m"), arr(vec![Json::Int(7)])])]);
    match find_rpc_payload(parsed, "m") {
        Some(RpcPayload::Value(Json::Array(v))) => assert!(matches!(v[0], Json::Int(7))),
        _ => panic!("expected the parsed payload"),
    }
    assert!(find_rpc_payload(t("not a chunk"), "m").is_none());
    assert!(find_rpc_payload(arr(vec![]), "m").is_none());
}

#[test]
fn decode_takes_the_first_chunk_with_an_answer() {
    let chunks = vec![
        None,
        Some(arr(vec![arr(vec![t("di"), Json::Int(42)])])),
        Some(arr(vec![arr(vec![t("wrb.fr"), t("m"), t("first")])])),
        Some(arr(vec![arr(vec![t("wrb.fr"), t("m"), t("second")])])),
    ];
    match decode_chunks(chunks, "m") {
        Some(RpcPayload::Encoded(s)) => assert_eq!(s, "first"),
        _ => panic!("expected the first answer"),
    }
    assert!(decode_chunks(vec![None, Some(Json::Null)], "m").is_none());
    assert!(decode_chunks(Vec::new(), "m").is_none());
}
