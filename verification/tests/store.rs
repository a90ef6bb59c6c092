//! The records.

use pantalaimon::json::Json;
use pantalaimon::store::{FetchTask, MediaInfo, PanStore, StoreError};

fn parse(text: &str) -> Json {
    Json::parse(text.as_bytes()).unwrap()
}

#[test]
fn schema_version_is_kept() {
    assert_eq!(PanStore::new(None).schema_version(), 1);
    assert_eq!(PanStore::new(Some(4)).schema_version(), 4);
}

#[test]
fn users_are_listed_by_server() {
    let mut s = PanStore::new(None);
    s.save_server_user("a", "@x:h");
    s.save_server_user("a", "@y:h");
    s.save_server_user("b", "@x:h");
    s.save_server_user("a", "@x:h");
    assert_eq!(s.load_users("a"), vec!["@x:h", "@y:h"]);
    assert_eq!(s.load_users("b"), vec!["@x:h"]);
    assert!(s.load_users("c").is_empty());
}

#[test]
fn access_tokens_are_read_back() {
    let mut s = PanStore::new(None);
    s.save_access_token("@x:h", "D1", "one");
    s.save_access_token("@x:h", "D2", "two");
    s.save_access_token("@x:h", "D1", "three");
    assert_eq!(s.load_access_token("@x:h", "D1").as_deref(), Some("three"));
    assert_eq!(s.load_access_token("@x:h", "D2").as_deref(), Some("two"));
    assert_eq!(s.load_access_token("@y:h", "D1"), None);
    let row = |a: &str, b: &str, c: &str| (a.to_owned(), b.to_owned(), c.to_owned());
    assert_eq!(s.load_all_tokens(), vec![row("@x:h", "D1", "three"), row("@x:h", "D2", "two")]);
    assert!(s.load_session_tokens("a").is_empty());
    s.save_server_user("a", "@x:h");
    assert_eq!(s.load_session_tokens("a"), vec![row("@x:h", "D1", "three"), row("@x:h", "D2", "two")]);
    assert!(s.load_session_tokens("b").is_empty());
}

#[test]
fn sync_tokens_are_read_back() {
    let mut s = PanStore::new(None);
    s.save_sync_token("a", "@x:h", "t1");
    s.save_sync_token("b", "@x:h", "t2");
    s.save_sync_token("a", "@x:h", "t3");
    assert_eq!(s.load_sync_token("a", "@x:h").as_deref(), Some("t3"));
    assert_eq!(s.load_sync_token("b", "@x:h").as_deref(), Some("t2"));
    assert_eq!(s.load_sync_token("a", "@y:h"), None);
    assert_eq!(s.load_users("a"), vec!["@x:h"], "the user is recorded too");
}

#[test]
fn fetch_tasks_come_and_go() {
    let mut s = PanStore::new(None);
    let task = |room: &str, token: &str| FetchTask { room_id: room.to_owned(), token: token.to_owned() };
    let list = |s: &PanStore| -> Vec<(String, String)> {
        s.load_fetcher_tasks("a", "@x:h").into_iter().map(|t| (t.room_id, t.token)).collect()
    };
    s.save_fetcher_task("a", "@x:h", &task("!r", "1"));
    s.save_fetcher_task("a", "@x:h", &task("!s", "2"));
    s.save_fetcher_task("a", "@x:h", &task("!r", "1"));
    assert_eq!(list(&s), vec![("!s".to_owned(), "2".to_owned()), ("!r".to_owned(), "1".to_owned())]);
    assert!(s.load_fetcher_tasks("b", "@x:h").is_empty());
    s.delete_fetcher_task("b", "@x:h", &task("!s", "2"));
    s.delete_fetcher_task("a", "@x:h", &task("!s", "9"));
    assert_eq!(list(&s).len(), 2);
    s.delete_fetcher_task("a", "@x:h", &task("!s", "2"));
    assert_eq!(list(&s), vec![("!r".to_owned(), "1".to_owned())]);
}

fn media(iv: &str) -> MediaInfo {
    MediaInfo {
        mxc_server: "h".to_owned(),
        mxc_path: "p".to_owned(),
        key: parse("{\"ext\":true,\"key_ops\":[\"encrypt\",\"decrypt\"]}"),
        iv: iv.to_owned(),
        hashes: parse("{\"sha256\":\"x\"}"),
    }
}

#[test]
fn first_media_keys_stay() {
    let mut s = PanStore::new(None);
    assert!(matches!(s.load_media("a", "h", "p"), Ok(None)));
    s.save_media("a", &media("first"));
    s.save_media("a", &media("second"));
    let m = s.load_media("a", "h", "p").unwrap().unwrap();
    assert_eq!(m.iv, "first");
    assert_eq!(m.key.write(), media("").key.write());
    assert_eq!(m.hashes.get_text("sha256"), Some("x"));
    assert!(matches!(s.load_media("b", "h", "p"), Ok(None)));
    s.restore_media("b", "h", "p", "{\"k\":1}", "iv", "nonsense");
    assert!(matches!(s.load_media("b", "h", "p"), Err(StoreError::BadMediaKeys)));
}

#[test]
fn media_keys_of_any_shape_are_read_back() {
    let deep = format!("{}\"x\"{}", "[".repeat(127), "]".repeat(127));
    let odd = "{\"a\":1,\"b\":[-7,18446744073709551615,2.5],\"c\":{\"\u{e9}\":null}}";
    let marked = "{\"!\":1,\"$serde_json::private::RawValue\":\"null\"}";
    for key in [deep.as_str(), odd, marked] {
        let mut s = PanStore::new(None);
        let first = MediaInfo { key: parse(key), ..media("first") };
        s.save_media("a", &first);
        s.save_media("a", &media("second"));
        let m = s.load_media("a", "h", "p").unwrap().unwrap();
        assert_eq!(m.iv, "first");
        assert_eq!(m.key.into_value(), first.key.into_value());
    }
}

#[test]
fn some_media_keys_are_not_read_back() {
    let mut s = PanStore::new(None);
    let mut marked = Json::object();
    marked.set("$serde_json::private::RawValue", Json::text("null"));
    s.save_media("a", &MediaInfo { key: marked, ..media("first") });
    assert!(matches!(s.load_media("a", "h", "p").unwrap().unwrap().key, Json::Null));
    let mut deep = Json::Null;
    for _ in 0..128 {
        deep = Json::Array(vec![deep]);
    }
    s.save_media("b", &MediaInfo { key: deep, ..media("first") });
    assert!(matches!(s.load_media("b", "h", "p"), Err(StoreError::BadMediaKeys)));
}

#[test]
fn first_upload_names_stay() {
    let mut s = PanStore::new(None);
    s.save_upload("a", "mxc://h/p", "f", "text/plain");
    s.save_upload("a", "mxc://h/p", "g", "image/png");
    let u = s.load_upload("a", "mxc://h/p").unwrap();
    assert_eq!((u.content_uri.as_str(), u.filename.as_str(), u.mimetype.as_str()), ("mxc://h/p", "f", "text/plain"));
    assert!(s.load_upload("a", "mxc://h/q").is_none());
    assert!(s.load_upload("b", "mxc://h/p").is_none());
}
