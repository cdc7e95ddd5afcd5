//! The JSON codec from the outside: document parsing, status and
//! new-session bodies, and the encode/parse round trip for bodies.

use hub_router::codec::{
    encode_new_session_body, parse_new_session_body, parse_new_session_response, parse_status,
};
use hub_router::json::{encode_json, parse_json, Json};
use hub_router::schema::{
    NewSessionRequestBody, NewSessionRequestCapabilities, NewSessionRequestCapability,
};

fn cap(browser: Option<&str>, platform: Option<&str>) -> NewSessionRequestCapability {
    NewSessionRequestCapability {
        browserName: browser.map(|s| s.to_string()),
        platformName: platform.map(|s| s.to_string()),
    }
}

#[test]
fn json_documents_parse() {
    assert!(parse_json("null").is_some());
    assert!(parse_json(" { \"a\" : [ 1 , true , \"x\" ] } ").is_some());
    assert!(parse_json("{\"a\":}").is_none());
    assert!(parse_json("[1,]").is_none());
    assert!(parse_json("").is_none());
    match parse_json("\"a\\n\\\"b\\u0041\"") {
        Some(Json::Str(s)) => assert_eq!(s, "a\n\"bA"),
        _ => panic!("expected a string document"),
    }
    match parse_json("18446744073709551615") {
        Some(Json::Num(n)) => assert_eq!(n, u64::MAX),
        _ => panic!("expected a number document"),
    }
}

#[test]
fn number_tokens_are_kept_as_text() {
    // Anything beyond a plain unsigned 64-bit integer is kept verbatim.
    for lexeme in ["12.5", "-3", "18446744073709551616", "6.02e23", "-1.5E-8"] {
        match parse_json(lexeme) {
            Some(Json::NumText(s)) => assert_eq!(s, lexeme),
            other => panic!("expected a kept number token, got {:?}", other.is_some()),
        }
    }
    // Malformed number tokens are still rejected.
    assert!(parse_json("1.").is_none());
    assert!(parse_json("1e").is_none());
    assert!(parse_json("-").is_none());
    assert!(parse_json("--1").is_none());
}

#[test]
fn unicode_escapes_decode() {
    match parse_json("\"caf\\u00E9\"") {
        Some(Json::Str(s)) => assert_eq!(s, "caf\u{e9}"),
        _ => panic!("expected a string document"),
    }
    // A surrogate pair decodes to one supplementary character.
    match parse_json("\"\\uD83D\\uDE00\"") {
        Some(Json::Str(s)) => assert_eq!(s, "\u{1F600}"),
        _ => panic!("expected a string document"),
    }
    // Lone or misordered surrogates are rejected.
    assert!(parse_json("\"\\uDE00\"").is_none());
    assert!(parse_json("\"\\uD83Dx\"").is_none());
}

#[test]
fn json_encode_then_parse_is_identity() {
    let doc = Json::Obj(vec![
        ("k\"ey".to_string(), Json::Str("va\\l\nue".to_string())),
        ("list".to_string(), Json::Arr(vec![Json::Num(0), Json::Bool(false), Json::Null])),
        ("empty".to_string(), Json::Obj(Vec::new())),
    ]);
    let text = encode_json(&doc);
    let back = parse_json(&text).expect("canonical encoding parses");
    let again = encode_json(&back);
    assert_eq!(text, again);
}

#[test]
fn new_session_body_round_trip() {
    let body = NewSessionRequestBody {
        capabilities: NewSessionRequestCapabilities {
            alwaysMatch: cap(Some("chrome"), None),
            firstMatch: vec![cap(None, Some("linux")), cap(Some("firefox"), Some("mac"))],
        },
    };
    let text = encode_new_session_body(&body);
    let back = parse_new_session_body(&text).expect("round trip parses");
    assert_eq!(back.capabilities.alwaysMatch.browserName, Some("chrome".to_string()));
    assert_eq!(back.capabilities.alwaysMatch.platformName, None);
    assert_eq!(back.capabilities.firstMatch.len(), 2);
    assert_eq!(back.capabilities.firstMatch[0].browserName, None);
    assert_eq!(back.capabilities.firstMatch[0].platformName, Some("linux".to_string()));
    assert_eq!(back.capabilities.firstMatch[1].browserName, Some("firefox".to_string()));
    assert_eq!(back.capabilities.firstMatch[1].platformName, Some("mac".to_string()));
}

#[test]
fn new_session_body_tolerates_extra_members() {
    let text = "{\"capabilities\":{\"alwaysMatch\":{\"browserName\":\"chrome\",\"goog:chromeOptions\":{\"args\":[],\"scale\":1.5}},\"firstMatch\":[{\"timeouts\":-1}]},\"desiredCapabilities\":{}}";
    let body = parse_new_session_body(text).expect("parses with unknown members");
    assert_eq!(body.capabilities.alwaysMatch.browserName, Some("chrome".to_string()));
    assert_eq!(body.capabilities.firstMatch.len(), 1);
    assert!(parse_new_session_body("{\"capabilities\":{}}").is_none());
    assert!(parse_new_session_body("not json").is_none());
}

#[test]
fn status_documents_decode() {
    let text = "{\n  \"value\": {\n    \"ready\": true,\n    \"message\": \"UP\",\n    \"nodes\": [\n      {\n        \"id\": \"n1\",\n        \"uri\": \"http://n1\",\n        \"maxSessions\": 2,\n        \"osInfo\": {\"arch\": \"x86\", \"name\": \"linux\", \"version\": \"6\"},\n        \"availability\": \"UP\",\n        \"version\": \"4.1\",\n        \"slots\": [\n          {\"id\": {\"hostId\": \"h\", \"id\": \"s1\"}, \"lastStarted\": \"t\", \"session\": null,\n           \"stereotype\": {\"browserName\": \"chrome\", \"platformName\": \"linux\"}},\n          {\"id\": {\"hostId\": \"h\", \"id\": \"s2\"}, \"lastStarted\": \"t\",\n           \"session\": {\"sessionId\": \"abc\", \"start\": \"t\", \"uri\": \"u\",\n                        \"stereotype\": {\"browserName\": \"chrome\", \"platformName\": \"linux\"}},\n           \"stereotype\": {\"browserName\": \"chrome\", \"platformName\": \"linux\"}}\n        ]\n      }\n    ]\n  }\n}";
    let status = parse_status(text).expect("status decodes");
    assert_eq!(status.value.ready, true);
    assert_eq!(status.value.nodes.len(), 1);
    assert_eq!(status.value.nodes[0].maxSessions, 2);
    assert_eq!(status.value.nodes[0].slots.len(), 2);
    assert!(status.value.nodes[0].slots[0].session.is_none());
    assert!(status.value.nodes[0].slots[1].session.is_some());
    assert_eq!(status.value.nodes[0].slots[0].stereotype.browserName, "chrome");

    assert!(parse_status("{\"value\":{\"ready\":true,\"nodes\":[]}}").is_none());
    assert!(parse_status("{}").is_none());
    // A fractional count in a required numeric member is still an error...
    assert!(parse_status(
        "{\"value\":{\"ready\":true,\"message\":\"UP\",\"nodes\":[{\"id\":\"n\",\"uri\":\"u\",\"maxSessions\":2.5,\"osInfo\":{\"arch\":\"a\",\"name\":\"n\",\"version\":\"v\"},\"availability\":\"UP\",\"version\":\"4\",\"slots\":[]}]}}"
    )
    .is_none());
    // ...but fractional values in ignored members are tolerated.
    assert!(parse_status(
        "{\"value\":{\"ready\":true,\"message\":\"UP\",\"uptime\":12.75,\"nodes\":[{\"id\":\"n\",\"uri\":\"u\",\"maxSessions\":2,\"load\":-0.5,\"osInfo\":{\"arch\":\"a\",\"name\":\"n\",\"version\":\"v\"},\"availability\":\"UP\",\"version\":\"4\",\"slots\":[]}]}}"
    )
    .is_some());
}

#[test]
fn new_session_responses_decode() {
    let text = "{\"value\":{\"sessionId\":\"S1\",\"capabilities\":{\"browserName\":\"chrome\",\"platformName\":\"linux\"}}}";
    let resp = parse_new_session_response(text).expect("response decodes");
    assert_eq!(resp.value.sessionId, "S1");
    assert_eq!(resp.value.capabilities.browserName, Some("chrome".to_string()));
    assert!(parse_new_session_response("{\"value\":{}}").is_none());
}
