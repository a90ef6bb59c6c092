//! JSON, HTTP values and errors.

use pantalaimon::error::{error_response, AppError};
use pantalaimon::json::Json;
use pantalaimon::wire::{
    build_response, find_header, forwarded_headers, is_hop_by_hop, read_segment,
    returned_headers,
    should_strip_response_header, upstream_url, ClientRequest, Header,
};

fn parse(text: &str) -> Json {
    Json::parse(text.as_bytes()).unwrap()
}

#[test]
fn json_goes_through_unchanged() {
    let text = "{\"b\":[1,-2.5e3,18446744073709551615,true,null,\"x\\n\\u00e9\"],\"a\":{\"c\":{}}}";
    let json = parse(text);
    assert_eq!(json.copy().write(), parse(&json.copy().write()).write());
    let value: serde_json::Value = serde_json::from_str(text).unwrap();
    assert_eq!(Json::from_value(value.clone()).into_value(), value);
    assert_eq!(json.into_value(), value);
    for bad in ["", "{", "[1,]", "{\"a\":1} x", "nul"] {
        assert!(Json::parse(bad.as_bytes()).is_none(), "{bad}");
    }
    assert!(Json::parse(b"\"\xff\"").is_none());
}

#[test]
fn segments_are_read() {
    assert_eq!(read_segment("!r:h"), "!r:h");
    assert_eq!(read_segment("%21r%3Ah"), "!r:h");
    assert_eq!(read_segment("%21r%3ah"), "!r:h");
    assert_eq!(read_segment("%E2%82%AC%e2%82%ac"), "\u{20ac}\u{20ac}");
    assert_eq!(read_segment("100%"), "100%");
    assert_eq!(read_segment("%2"), "%2");
    assert_eq!(read_segment("%zz%41"), "%zzA");
    assert_eq!(read_segment("%2541"), "%41");
    assert_eq!(read_segment("!r%FF"), "!r%FF");
}

#[test]
fn json_fields() {
    let mut json = parse("{\"a\":\"x\",\"b\":{\"c\":\"y\"},\"d\":[\"z\",{\"e\":1}]}");
    assert_eq!(json.get_text("a"), Some("x"));
    assert_eq!(json.get_text("b"), None);
    assert_eq!(json.get2("b", "c").unwrap().as_text(), Some("y"));
    assert_eq!(json.pointer(&vec!["b", "c"], 0).unwrap().as_text(), Some("y"));
    assert!(json.pointer(&vec!["b", "q"], 0).is_none());
    assert_eq!(json.get("d").unwrap().as_items().unwrap().len(), 2);
    let mut keys = json.keys();
    keys.sort();
    assert_eq!(keys, vec!["a", "b", "d"]);
    json.set("a", Json::text("new"));
    json.set("f", Json::Null);
    assert_eq!(json.get_text("a"), Some("new"));
    assert!(matches!(json.take("f"), Some(Json::Null)));
    assert!(json.take("f").is_none());
    json.set_item(&vec!["d"], 0, 0, Json::text("w"));
    json.set_item(&vec!["d"], 0, 9, Json::text("nowhere"));
    json.set_item(&vec!["q"], 0, 0, Json::text("nowhere"));
    let items = json.get("d").unwrap().as_items().unwrap();
    assert_eq!(items.len(), 2);
    assert_eq!(items[0].as_text(), Some("w"));
    let mut null = Json::Null;
    null.set("k", Json::object());
    assert_eq!(null.write(), "{\"k\":{}}");
    assert!(Json::Null.get("k").is_none());
}

fn header(name: &str, value: &str) -> Header {
    Header { name: name.to_owned(), value: value.as_bytes().to_vec() }
}

#[test]
fn headers_that_stay_behind() {
    let hop = [
        "connection",
        "keep-alive",
        "proxy-authenticate",
        "proxy-authorization",
        "te",
        "trailers",
        "transfer-encoding",
        "upgrade",
    ];
    for name in hop {
        assert!(is_hop_by_hop(name) && should_strip_response_header(name), "{name}");
    }
    for name in ["content-encoding", "content-length"] {
        assert!(!is_hop_by_hop(name) && should_strip_response_header(name), "{name}");
    }
    assert!(!should_strip_response_header("content-type"));
    let all = vec![
        header("host", "h"),
        header("upgrade", "u"),
        header("accept-encoding", "gzip"),
        header("content-length", "1"),
        header("x", "1"),
        header("x", "2"),
    ];
    let names = |hs: Vec<Header>| -> Vec<String> { hs.into_iter().map(|h| h.name).collect() };
    assert_eq!(names(forwarded_headers(&all, false)), vec!["content-length", "x", "x"]);
    assert_eq!(names(forwarded_headers(&all, true)), vec!["x", "x"]);
    assert_eq!(names(returned_headers(&all)), vec!["host", "accept-encoding", "x", "x"]);
    assert_eq!(find_header(&all, "x").unwrap(), b"1");
    assert!(find_header(&all, "y").is_none());
}

#[test]
fn responses_and_urls() {
    let r = build_response(204, &vec![header("content-length", "0"), header("a", "b")], b"x".to_vec());
    assert_eq!((r.status, r.headers.len(), &r.body[..]), (204, 1, &b"x"[..]));
    assert_eq!(build_response(1, &vec![], vec![]).status, 500);
    assert_eq!(build_response(999, &vec![], vec![]).status, 999);
    assert_eq!(upstream_url("https://h//", "/x?y"), "https://h/x?y");
    let req = ClientRequest {
        method: "GET".to_owned(),
        path: "/".to_owned(),
        query: None,
        target: None,
        headers: vec![],
        body: vec![],
    };
    assert_eq!(req.target_or_root(), "/");
    assert_eq!(req.upstream("https://h/", "PUT", true, None).url, "https://h/");
    assert!(req.body_to_send().is_none());
}

#[test]
fn errors_are_answered() {
    let cases = [
        (AppError::Upstream("e".to_owned()), 502, "upstream request failed: e"),
        (AppError::Database("e".to_owned()), 500, "database error: e"),
        (AppError::Body, 400, "body too large or unreadable"),
        (AppError::Internal("e".to_owned()), 500, "e"),
    ];
    for (error, status, message) in cases {
        assert_eq!(error.message(), message);
        let r = error.into_response();
        assert_eq!(r.status, status);
        assert_eq!(r.headers[0].value, b"application/json");
        let body = Json::parse(&r.body).unwrap();
        assert_eq!(body.get_text("errcode"), Some("M_UNKNOWN"));
        assert_eq!(body.get_text("error"), Some(message));
    }
    assert_eq!(error_response(404, "M_X", "y").status, 404);
}
