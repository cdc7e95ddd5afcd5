//! Request classification: session-id extraction and method/path tests,
//! driven through hyper requests as the proxy would see them.

use hub_router::handler::{extract_session_id, is_delete_session, is_request_new_session};
use hyper::Body;

#[test]
fn test_extract_session_id() {
    let t1 = hyper::Request::post("https://example.com/session/234787498dfhgshdfgsdhf0943/")
        .body(Body::empty())
        .unwrap();
    assert_eq!(
        extract_session_id(t1.uri().path()),
        Some(String::from("234787498dfhgshdfgsdhf0943"))
    );

    let t2 = hyper::Request::get("https://example.com/sess/")
        .body(Body::empty())
        .unwrap();
    assert_eq!(extract_session_id(t2.uri().path()), None);

    let t3 = hyper::Request::get("https://example.com/session/123456/3875285udfhd")
        .body(Body::empty())
        .unwrap();
    assert_eq!(extract_session_id(t3.uri().path()), Some(String::from("123456")));

    let t4 = hyper::Request::get("https://example.com/session/*&*$&)HJSJKADHLAKDFS)_/3875285udfhd")
        .body(Body::empty())
        .unwrap();
    assert_eq!(
        extract_session_id(t4.uri().path()),
        Some(String::from("*&*$&)HJSJKADHLAKDFS)_"))
    );
}

#[test]
fn test_req_is_new_session() {
    let t1 = hyper::Request::post("https://example.com/session")
        .body(Body::empty())
        .unwrap();
    assert_eq!(
        is_request_new_session(t1.method().as_str(), t1.uri().path_and_query().unwrap().as_str()),
        true
    );

    let t2 = hyper::Request::post("https://example.com/session/247579fhsjkdfhdsjkfhsfg")
        .body(Body::empty())
        .unwrap();
    assert_eq!(
        is_request_new_session(t2.method().as_str(), t2.uri().path_and_query().unwrap().as_str()),
        false
    );

    let t3 = hyper::Request::get("https://example.com/session/247579fhsjkdfhdsjkfhsfg")
        .body(Body::empty())
        .unwrap();
    assert_eq!(
        is_request_new_session(t3.method().as_str(), t3.uri().path_and_query().unwrap().as_str()),
        false
    );

    let t4 = hyper::Request::post("https://example.com/sessi")
        .body(Body::empty())
        .unwrap();
    assert_eq!(
        is_request_new_session(t4.method().as_str(), t4.uri().path_and_query().unwrap().as_str()),
        false
    );
}

#[test]
fn test_delete_session() {
    let t1 = hyper::Request::delete("https://example.com/session/237598yfub398f4h8dufd")
        .body(Body::empty())
        .unwrap();
    assert_eq!(
        is_delete_session(t1.method().as_str(), t1.uri().path_and_query().unwrap().as_str()),
        true
    );

    let t2 = hyper::Request::post("https://example.com/session/237598yfub398f4h8dufd")
        .body(Body::empty())
        .unwrap();
    assert_eq!(
        is_delete_session(t2.method().as_str(), t2.uri().path_and_query().unwrap().as_str()),
        false
    );

    let t3 = hyper::Request::delete("http://example.com/")
        .body(Body::empty())
        .unwrap();
    assert_eq!(
        is_delete_session(t3.method().as_str(), t3.uri().path_and_query().unwrap().as_str()),
        false
    );
}

#[test]
fn session_id_boundaries() {
    assert_eq!(extract_session_id("/session"), None);
    assert_eq!(extract_session_id("/session/abc"), Some(String::from("abc")));
    assert_eq!(extract_session_id("/session/abc/"), Some(String::from("abc")));
    assert_eq!(extract_session_id("/session/abc/element"), Some(String::from("abc")));
    assert_eq!(extract_session_id("/status"), None);
    assert_eq!(extract_session_id("/session/"), None);
}
