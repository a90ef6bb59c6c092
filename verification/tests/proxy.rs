//! The proxy as a client sees it. Each test plays the homeserver: it looks at what the proxy
//! would send, and hands back what the homeserver answers.

use pantalaimon::client::devices::{DeviceFacts, Trust};
use pantalaimon::client::events::decrypt_jobs;
use pantalaimon::client::media::{info_of, record_of};
use pantalaimon::client::requests::{default_key_type, members_in, members_of};
use pantalaimon::client::sync::{sync_inputs, sync_invites};
use pantalaimon::client::PanClient;
use pantalaimon::config::ServerConfig;
use pantalaimon::error::AppError;
use pantalaimon::json::Json;
use pantalaimon::messages::{DaemonToUi, UiToDaemon};
use pantalaimon::proxy::daemon::{ProxyDaemon, Resolution};
use pantalaimon::proxy::media::{
    download, download_answered, mxc_from_path, take_upload, upload, upload_answered, upload_sealed,
    DownloadPlan, DownloadStep,
};
use pantalaimon::proxy::routes::{
    answer_plan, create_room, extract_token, filter, finish_messages, finish_sync, keyring_key, login,
    login_request, messages, messages_jobs, pass_back, profile, proxy_pass, read_login,
    restore_session, rewritable_body, search, search_opts, sync, take_login, well_known, AnswerPlan,
    LoginOutcome, MessagesPlan, SearchPlan, SyncPlan, BODY_LIMIT, LOGIN_BODY_LIMIT,
};
use pantalaimon::proxy::send::{
    decision_of, encrypted_send, plain_send, send_message, send_resolved, Decision, SendAction,
    SendEvent, SendPlan, SendStart, Sending, Stage, DECISION_SECONDS,
};
use pantalaimon::proxy::{build_router, Handler, Method, Route};
use pantalaimon::store::PanStore;
use pantalaimon::wire::{ClientRequest, Header, UpstreamRequest, UpstreamResponse};

const HOMESERVER: &str = "http://127.0.0.1:4010";

fn server_conf() -> ServerConfig {
    ServerConfig {
        name: "test".to_owned(),
        homeserver: format!("{HOMESERVER}/"),
        listen_address: "127.0.0.1".to_owned(),
        listen_port: 8009,
        proxy: None,
        ssl: false,
        ignore_verification: false,
        use_keyring: false,
        search_requests: false,
        index_encrypted_only: false,
        indexing_batch_size: 100,
        history_fetch_delay: 3000,
        drop_old_keys: false,
    }
}

fn header(name: &str, value: &str) -> Header {
    Header { name: name.to_owned(), value: value.as_bytes().to_vec() }
}

fn request(method: &str, target: &str, headers: Vec<Header>, body: &[u8]) -> ClientRequest {
    let (path, query) = match target.split_once('?') {
        Some((p, q)) => (p.to_owned(), Some(q.to_owned())),
        None => (target.to_owned(), None),
    };
    ClientRequest {
        method: method.to_owned(),
        path,
        query,
        target: Some(target.to_owned()),
        headers,
        body: body.to_vec(),
    }
}

fn response(status: u16, headers: Vec<Header>, body: &[u8]) -> UpstreamResponse {
    UpstreamResponse { status, headers, body: body.to_vec() }
}

fn parse(text: &str) -> Json {
    Json::parse(text.as_bytes()).unwrap()
}

/// Which handler serves a request.
fn routed(method: Method, path: &str) -> Handler {
    let fits = |pattern: &str| {
        let wanted: Vec<&str> = pattern.split('/').collect();
        let given: Vec<&str> = path.split('/').collect();
        wanted.len() == given.len()
            && wanted.iter().zip(given.iter()).all(|(w, g)| w.starts_with(':') || w == g)
    };
    let routes: Vec<Route> = build_router();
    routes
        .iter()
        .find(|r| r.method == method && fits(&r.path))
        .map(|r| r.handler)
        .unwrap_or(Handler::ProxyPass)
}

const LOGIN: &str = "{\"user_id\":\"@alice:localhost\",\"device_id\":\"DEVICE1\",\
                     \"access_token\":\"syt_test_token\",\"home_server\":\"localhost\"}";

const BASIC_SYNC: &str = "{\"next_batch\":\"s2\",\"rooms\":{\"join\":{},\"leave\":{},\
                          \"invite\":{}},\"to_device\":{\"events\":[]},\"device_lists\":\
                          {\"changed\":[],\"left\":[]},\"device_one_time_keys_count\":{}}";

const PASSWORD: &[u8] = b"{\"type\":\"m.login.password\",\"password\":\"pw\"}";

fn login_with(
    daemon: &mut ProxyDaemon,
    store: &mut PanStore,
    path: &str,
    body: &[u8],
    answer: UpstreamResponse,
) -> LoginOutcome {
    assert_eq!(routed(Method::Post, path), Handler::Login);
    let req = request("POST", path, vec![header("content-type", "application/json")], body);
    let sent = login_request(daemon, &req);
    assert_eq!(sent.method, "POST");
    assert_eq!(sent.url, format!("{HOMESERVER}{path}"));
    assert_eq!(sent.body.as_deref(), Some(body));
    take_login(daemon, store, answer)
}

fn login_on(daemon: &mut ProxyDaemon, store: &mut PanStore, path: &str, answer: UpstreamResponse) -> LoginOutcome {
    login_with(daemon, store, path, PASSWORD, answer)
}

/// The JSON of an answer that is rewritten for the session of Alice.
fn rewritten_for_alice(answer: &UpstreamResponse) -> Json {
    match answer_plan(answer, Some("@alice:localhost".to_owned())) {
        AnswerPlan::Rewrite { user_id, body } => {
            assert_eq!(user_id, "@alice:localhost");
            body
        }
        AnswerPlan::PassBack(_) => panic!("the answer must be rewritten"),
    }
}

fn do_login(daemon: &mut ProxyDaemon, store: &mut PanStore) -> PanClient {
    let outcome = login_on(daemon, store, "/_matrix/client/v3/login", response(200, vec![], LOGIN.as_bytes()));
    assert_eq!(outcome.response.status, 200, "login should succeed");
    outcome.client.unwrap()
}

fn incremental_sync(token: &str) -> ClientRequest {
    request(
        "GET",
        "/_matrix/client/v3/sync?since=s1&timeout=0",
        vec![header("authorization", &format!("Bearer {token}"))],
        b"",
    )
}

/// Unrecognised paths fall through to the homeserver unchanged.
#[test]
fn test_fallback_proxies_unknown_route() {
    let daemon = ProxyDaemon::new(server_conf());
    assert_eq!(routed(Method::Get, "/some/custom/endpoint"), Handler::ProxyPass);
    let req = request("GET", "/some/custom/endpoint", vec![], b"");
    let sent = proxy_pass(&daemon, &req);
    assert_eq!(sent.method, "GET");
    assert_eq!(sent.url, format!("{HOMESERVER}/some/custom/endpoint"));
    assert!(sent.body.is_none());
    let answer = pass_back(&response(200, vec![], b"pong"));
    assert_eq!(answer.status, 200);
    assert_eq!(&answer.body[..], b"pong");
}

/// A successful login is forwarded, the session is registered, and incremental syncs with
/// the token are processed from then on.
#[test]
fn test_login_success_registers_client() {
    let mut daemon = ProxyDaemon::new(server_conf());
    let mut store = PanStore::new(None);
    let mut client = do_login(&mut daemon, &mut store);
    assert_eq!(client.user(), "@alice:localhost");
    assert_eq!(client.device_id, "DEVICE1");
    assert!(daemon.has_client("@alice:localhost"));
    assert_eq!(store.load_access_token("@alice:localhost", "DEVICE1").as_deref(), Some("syt_test_token"));
    assert_eq!(store.load_users("test"), vec!["@alice:localhost".to_owned()]);

    let req = incremental_sync("syt_test_token");
    let token = match sync(&daemon, &req) {
        SyncPlan::Process { request, token } => {
            assert_eq!(request.url, format!("{HOMESERVER}/_matrix/client/v3/sync?since=s1&timeout=0"));
            token
        }
        SyncPlan::Forward(_) => panic!("the sync of a session must be processed"),
    };
    assert!(matches!(daemon.resolve_client(&token), Resolution::Client(u) if u == "@alice:localhost"));
    let answer = response(200, vec![], BASIC_SYNC.as_bytes());
    let body = rewritten_for_alice(&answer);
    let (out, told) = finish_sync(&mut client, &answer, body, &vec![], &vec![]);
    assert_eq!(out.status, 200);
    assert_eq!(Json::parse(&out.body).unwrap().get_text("next_batch"), Some("s2"));
    assert!(told.is_empty());
}

/// A refusal of the homeserver on login is forwarded as it is.
#[test]
fn test_login_upstream_failure_forwarded() {
    let mut daemon = ProxyDaemon::new(server_conf());
    let mut store = PanStore::new(None);
    let body = b"{\"errcode\":\"M_FORBIDDEN\",\"error\":\"Bad password\"}";
    let outcome = login_with(
        &mut daemon,
        &mut store,
        "/_matrix/client/v3/login",
        b"{\"password\":\"wrong\"}",
        response(403, vec![], body),
    );
    assert_eq!(outcome.response.status, 403);
    let json = Json::parse(&outcome.response.body).unwrap();
    assert_eq!(json.get_text("errcode"), Some("M_FORBIDDEN"));
    assert!(outcome.client.is_none());
    assert!(outcome.keyring.is_none());
    assert!(store.load_all_tokens().is_empty());
}

/// The r0 login route behaves as the v3 one does.
#[test]
fn test_login_r0_route_works() {
    let mut daemon = ProxyDaemon::new(server_conf());
    let mut store = PanStore::new(None);
    let outcome = login_on(
        &mut daemon,
        &mut store,
        "/_matrix/client/r0/login",
        response(200, vec![], LOGIN.as_bytes()),
    );
    assert_eq!(outcome.response.status, 200);
    assert!(daemon.is_known_token("syt_test_token"));
}

/// An initial sync, which has no `since`, is passed on without processing.
#[test]
fn test_sync_initial_is_proxied_directly() {
    let daemon = ProxyDaemon::new(server_conf());
    let req = request(
        "GET",
        "/_matrix/client/v3/sync?timeout=30000",
        vec![header("authorization", "Bearer any_token")],
        b"",
    );
    assert_eq!(routed(Method::Get, &req.path), Handler::Sync);
    match sync(&daemon, &req) {
        SyncPlan::Forward(sent) => {
            assert_eq!(sent.url, format!("{HOMESERVER}/_matrix/client/v3/sync?timeout=30000"))
        }
        SyncPlan::Process { .. } => panic!("an initial sync must be passed on"),
    }
    let answer = pass_back(&response(200, vec![], BASIC_SYNC.as_bytes()));
    assert_eq!(answer.status, 200);
    assert_eq!(Json::parse(&answer.body).unwrap().get_text("next_batch"), Some("s2"));
}

/// An incremental sync with an unknown token is forwarded without processing.
#[test]
fn test_sync_incremental_unknown_token_proxied() {
    let mut daemon = ProxyDaemon::new(server_conf());
    let req = incremental_sync("unknown_tok");
    let token = match sync(&daemon, &req) {
        SyncPlan::Process { token, .. } => token,
        SyncPlan::Forward(_) => panic!("the homeserver must be asked whose token it is"),
    };
    assert_eq!(token, "unknown_tok");
    assert!(matches!(daemon.resolve_client(&token), Resolution::Ask));
    let asked = daemon.whoami_request(&token);
    assert_eq!(asked.url, format!("{HOMESERVER}/_matrix/client/v3/whoami"));
    assert_eq!(asked.headers[0].name, "authorization");
    assert_eq!(asked.headers[0].value, b"Bearer unknown_tok");
    let session = daemon.take_whoami(&token, &Some(response(404, vec![], b"")));
    assert!(session.is_none());
    let answer = match answer_plan(&response(200, vec![], BASIC_SYNC.as_bytes()), session) {
        AnswerPlan::PassBack(answer) => answer,
        AnswerPlan::Rewrite { .. } => panic!("there is no session"),
    };
    assert_eq!(answer.status, 200);
    assert_eq!(answer.body, BASIC_SYNC.as_bytes());
    assert_eq!(Json::parse(&answer.body).unwrap().get_text("next_batch"), Some("s2"));
}

/// An incremental sync with a registered session is processed.
#[test]
fn test_sync_incremental_with_registered_client() {
    let mut daemon = ProxyDaemon::new(server_conf());
    let mut store = PanStore::new(None);
    let mut client = do_login(&mut daemon, &mut store);
    let req = incremental_sync("syt_test_token");
    assert!(matches!(sync(&daemon, &req), SyncPlan::Process { .. }));
    let answer = response(200, vec![], BASIC_SYNC.as_bytes());
    let body = rewritten_for_alice(&answer);
    assert!(sync_inputs(&body).to_device_events.is_empty());
    assert_eq!(sync_inputs(&body).next_batch.as_deref(), Some("s2"));
    assert!(decrypt_jobs(&body).is_empty());
    assert!(sync_invites(&body).is_empty());
    let (out, _) = finish_sync(&mut client, &answer, body, &vec![], &vec![]);
    assert_eq!(out.status, 200);
    assert_eq!(Json::parse(&out.body).unwrap().get_text("next_batch"), Some("s2"));
}

/// A message without a token is forwarded without encryption.
#[test]
fn test_send_no_token_proxied() {
    let daemon = ProxyDaemon::new(server_conf());
    let req = request(
        "PUT",
        "/_matrix/client/v3/rooms/testroom/send/m.room.message/txn1",
        vec![header("content-type", "application/json")],
        b"{\"msgtype\":\"m.text\",\"body\":\"hi\"}",
    );
    assert_eq!(routed(Method::Put, &req.path), Handler::SendMessage);
    match send_message(&daemon, &req) {
        SendPlan::Plain(sent) => {
            assert_eq!(sent.method, "PUT");
            assert_eq!(sent.body.as_deref(), Some(&req.body[..]));
        }
        SendPlan::Session { .. } => panic!("there is no token"),
    }
    assert_eq!(pass_back(&response(200, vec![], b"{\"event_id\":\"$ev:h\"}")).status, 200);
}

/// After a login, a message to a room that is not encrypted is forwarded as it came: the
/// homeserver is asked whether the room is encrypted and says that it is not.
#[test]
fn test_send_unencrypted_room_forwarded_plaintext() {
    let mut daemon = ProxyDaemon::new(server_conf());
    let mut store = PanStore::new(None);
    let mut client = do_login(&mut daemon, &mut store);
    let req = request(
        "PUT",
        "/_matrix/client/v3/rooms/testroom/send/m.room.message/txn1",
        vec![header("authorization", "Bearer syt_test_token"), header("content-type", "application/json")],
        b"{\"msgtype\":\"m.text\",\"body\":\"hello\"}",
    );
    assert!(matches!(send_message(&daemon, &req), SendPlan::Session { token } if token == "syt_test_token"));
    let sending = Sending::new("testroom".to_owned(), "m.room.message".to_owned());
    let (sending, action) = sending.step(&mut client, &store, &req.body, SendEvent::Begin);
    match action {
        SendAction::AskRoom(u) => assert_eq!(
            u.url,
            format!("{HOMESERVER}/_matrix/client/v3/rooms/testroom/state/m.room.encryption")
        ),
        other => panic!("unexpected {other:?}"),
    }
    let (_, action) = sending.step(&mut client, &store, &req.body, SendEvent::RoomAnswered(Some(404)));
    assert!(matches!(action, SendAction::SendPlain));
    assert!(!client.is_room_encrypted("testroom"));
    let sent = plain_send(&daemon, &req);
    assert_eq!(sent.url, format!("{HOMESERVER}/_matrix/client/v3/rooms/testroom/send/m.room.message/txn1"));
    assert_eq!(sent.body.as_deref(), Some(&req.body[..]));
    let answer = pass_back(&response(200, vec![], b"{\"event_id\":\"$ev1:h\"}"));
    assert_eq!(answer.status, 200);
    assert_eq!(Json::parse(&answer.body).unwrap().get_text("event_id"), Some("$ev1:h"));
}

/// An upload with an unknown token is forwarded unchanged.
#[test]
fn test_upload_unknown_token_not_encrypted() {
    let daemon = ProxyDaemon::new(server_conf());
    let mut store = PanStore::new(None);
    let req = request(
        "POST",
        "/_matrix/media/v3/upload?filename=test.txt",
        vec![header("authorization", "Bearer unknown"), header("content-type", "text/plain")],
        b"hello world",
    );
    assert_eq!(routed(Method::Post, &req.path), Handler::Upload);
    let plan = upload(&daemon, &req);
    assert!(plan.info.is_none());
    assert_eq!(plan.request.body.as_deref(), Some(&b"hello world"[..]));
    let answer = response(200, vec![], b"{\"content_uri\":\"mxc://h/abc\"}");
    let (out, uri) = take_upload(&daemon, &mut store, &req, &plan.info, &answer);
    assert_eq!(uri.as_deref(), Some("mxc://h/abc"));
    assert_eq!(out.status, 200);
    assert_eq!(Json::parse(&out.body).unwrap().get_text("content_uri"), Some("mxc://h/abc"));
    assert!(store.load_media("test", "h", "abc").unwrap().is_none());
}

/// An upload of a registered user leaves sealed, and what opens it is recorded under the
/// address that the homeserver gave it.
#[test]
fn test_upload_known_token_stores_encryption_keys() {
    let mut daemon = ProxyDaemon::new(server_conf());
    let mut store = PanStore::new(None);
    do_login(&mut daemon, &mut store);
    let req = request(
        "POST",
        "/_matrix/media/v3/upload?filename=secret.bin",
        vec![
            header("authorization", "Bearer syt_test_token"),
            header("content-type", "application/octet-stream"),
            header("content-length", "14"),
        ],
        b"secret content",
    );
    let plan = upload(&daemon, &req);
    assert!(plan.info.is_some());
    let sealed = plan.request.body.as_ref().unwrap();
    assert_eq!(sealed.len(), 14);
    assert_ne!(&sealed[..], b"secret content");
    assert!(plan.request.headers.iter().all(|h| h.name != "content-length"));
    let answer = response(200, vec![], b"{\"content_uri\":\"mxc://localhost/xyz789\"}");
    let (out, uri) = take_upload(&daemon, &mut store, &req, &plan.info, &answer);
    assert_eq!(uri.as_deref(), Some("mxc://localhost/xyz789"));
    assert_eq!(out.status, 200);

    let media = store.load_media("test", "localhost", "xyz789").unwrap();
    assert!(media.is_some(), "encryption keys must be stored after upload");
    let media = media.unwrap();
    assert!(!media.iv.is_empty(), "iv should be stored");
    assert!(matches!(media.hashes, Json::Object(_)), "hashes should be stored");
    let info = store.load_upload("test", "mxc://localhost/xyz789").unwrap();
    assert_eq!(info.filename, "secret.bin");
    assert_eq!(info.mimetype, "application/octet-stream");
}

/// A download of media without recorded keys is passed on.
#[test]
fn test_download_no_stored_keys_proxied() {
    let daemon = ProxyDaemon::new(server_conf());
    let store = PanStore::new(None);
    let req = request("GET", "/_matrix/media/v3/download/matrix.org/abc123", vec![], b"");
    assert_eq!(routed(Method::Get, &req.path), Handler::Download);
    match download(&daemon, &store, &req) {
        DownloadPlan::Forward(sent) => assert_eq!(
            sent.url,
            format!("{HOMESERVER}/_matrix/media/v3/download/matrix.org/abc123")
        ),
        DownloadPlan::Fetch { .. } => panic!("there are no keys"),
    }
    let answer = pass_back(&response(
        200,
        vec![header("content-type", "application/octet-stream")],
        b"raw file bytes",
    ));
    assert_eq!(answer.status, 200);
    assert_eq!(&answer.body[..], b"raw file bytes");
    assert_eq!(answer.headers[0].name, "content-type");
}

/// A download of media with recorded keys is opened: the sealed bytes that went to the
/// homeserver come back as what was uploaded.
#[test]
fn test_download_stored_keys_decrypts() {
    let mut daemon = ProxyDaemon::new(server_conf());
    let mut store = PanStore::new(None);
    do_login(&mut daemon, &mut store);
    let plaintext = b"decryption test content";
    let req = request(
        "POST",
        "/_matrix/media/v3/upload",
        vec![header("authorization", "Bearer syt_test_token"), header("content-type", "application/octet-stream")],
        plaintext,
    );
    let plan = upload(&daemon, &req);
    let ciphertext = plan.request.body.clone().unwrap();
    assert_ne!(&ciphertext[..], plaintext);
    let answer = response(200, vec![], b"{\"content_uri\":\"mxc://localhost/dec_test\"}");
    take_upload(&daemon, &mut store, &req, &plan.info, &answer);

    let dl_req = request("GET", "/_matrix/media/v3/download/localhost/dec_test", vec![], b"");
    let info = match download(&daemon, &store, &dl_req) {
        DownloadPlan::Fetch { request, info } => {
            assert_eq!(request.method, "GET");
            info
        }
        DownloadPlan::Forward(_) => panic!("the keys are recorded"),
    };
    let sent = response(
        200,
        vec![header("content-type", "application/octet-stream"), header("content-length", "23")],
        &ciphertext,
    );
    match download_answered(&sent, info) {
        DownloadStep::Respond(r) => {
            assert_eq!(r.status, 200);
            assert_eq!(&r.body[..], plaintext, "downloaded bytes must equal the original plaintext");
            assert!(r.headers.iter().all(|h| h.name != "content-length"));
        }
        DownloadStep::Forward => panic!("the bytes must open"),
    }
}

/// A search is answered with `M_NOT_FOUND` where the settings do not allow it.
#[test]
fn test_search_disabled_returns_404() {
    let daemon = ProxyDaemon::new(server_conf());
    let req = request(
        "POST",
        "/_matrix/client/v3/search",
        vec![header("content-type", "application/json")],
        b"{\"search_categories\":{}}",
    );
    assert_eq!(routed(Method::Post, &req.path), Handler::Search);
    match search(&daemon, &req) {
        SearchPlan::Respond(r) => {
            assert_eq!(r.status, 404);
            let body = Json::parse(&r.body).unwrap();
            assert_eq!(body.get_text("errcode"), Some("M_NOT_FOUND"));
            assert_eq!(body.get_text("error"), Some("Local search is not enabled"));
        }
        SearchPlan::Forward(_) => panic!("searches are not allowed"),
    }
}

#[test]
fn searches_pass_where_allowed() {
    let daemon = ProxyDaemon::new(ServerConfig { search_requests: true, ..server_conf() });
    let req = request("POST", "/_matrix/client/r0/search?next_batch=1", vec![], b"{}");
    match search(&daemon, &req) {
        SearchPlan::Forward(u) => {
            assert_eq!(u.url, format!("{HOMESERVER}/_matrix/client/r0/search?next_batch=1"));
            assert_eq!(u.body.as_deref(), Some(&b"{}"[..]));
        }
        SearchPlan::Respond(_) => panic!("searches are allowed"),
    }
    let options = search_opts();
    assert_eq!(options.status, 200);
    assert!(options.body.is_empty());
}

#[test]
fn routes_of_both_versions_are_alike() {
    for version in ["r0", "v3"] {
        let base = format!("/_matrix/client/{version}");
        assert_eq!(routed(Method::Get, &format!("{base}/login")), Handler::ProxyPass);
        assert_eq!(routed(Method::Post, &format!("{base}/createRoom")), Handler::CreateRoom);
        assert_eq!(routed(Method::Get, &format!("{base}/rooms/!r:h/messages")), Handler::Messages);
        assert_eq!(routed(Method::Post, &format!("{base}/user/@a:h/filter")), Handler::Filter);
        assert_eq!(routed(Method::Options, &format!("{base}/search")), Handler::SearchOpts);
        assert_eq!(routed(Method::Put, &format!("{base}/profile/@a:h/avatar_url")), Handler::Profile);
    }
    assert_eq!(routed(Method::Post, "/.well-known/matrix/client"), Handler::WellKnown);
    assert_eq!(routed(Method::Get, "/_matrix/media/v1/download/h/id/name.png"), Handler::Download);
    assert_eq!(routed(Method::Post, "/_matrix/media/v1/upload"), Handler::ProxyPass);
    assert_eq!(build_router().len(), 32);
}

#[test]
fn no_route_comes_twice() {
    let routes = build_router();
    for i in 0..routes.len() {
        for j in 0..i {
            assert!(routes[i].path != routes[j].path || routes[i].method != routes[j].method);
        }
    }
}

#[test]
fn plain_handlers_pass_on() {
    let daemon = ProxyDaemon::new(server_conf());
    let req = request(
        "POST",
        "/x?y=z",
        vec![
            header("host", "proxy.example"),
            header("connection", "close"),
            header("te", "trailers"),
            header("accept", "*/*"),
        ],
        b"b",
    );
    let handlers: [fn(&ProxyDaemon, &ClientRequest) -> UpstreamRequest; 5] =
        [create_room, filter, profile, well_known, proxy_pass];
    for handler in handlers {
        let u = handler(&daemon, &req);
        assert_eq!(u.method, "POST");
        assert_eq!(u.url, format!("{HOMESERVER}/x?y=z"));
        assert_eq!(u.headers.len(), 1);
        assert_eq!(u.headers[0].name, "accept");
        assert_eq!(u.body.as_deref(), Some(&b"b"[..]));
    }
    let nowhere = ClientRequest { target: None, ..request("GET", "/", vec![], b"") };
    assert_eq!(proxy_pass(&daemon, &nowhere).url, HOMESERVER);
}

#[test]
fn tokens_come_from_header_or_query() {
    let with = |headers: Vec<Header>, target: &str| extract_token(&request("GET", target, headers, b""));
    assert_eq!(with(vec![header("authorization", "Bearer  tok ")], "/").as_deref(), Some("tok"));
    assert_eq!(with(vec![header("authorization", "Basic abc")], "/").as_deref(), None);
    assert_eq!(with(vec![], "/x?a=b&access_token=q&access_token=r").as_deref(), Some("q"));
    assert_eq!(with(vec![header("authorization", "Basic abc")], "/?access_token=q").as_deref(), Some("q"));
    assert_eq!(
        with(vec![header("authorization", "Bearer h")], "/?access_token=q").as_deref(),
        Some("h")
    );
    let strange = Header { name: "authorization".to_owned(), value: b"Bearer \xff".to_vec() };
    assert_eq!(with(vec![strange], "/").as_deref(), None);
    assert_eq!(keyring_key("@a:h", "DEV"), "@a:h:DEV");
    assert_eq!(LOGIN_BODY_LIMIT, 1024 * 1024);
    assert_eq!(BODY_LIMIT, 100 * 1024 * 1024);
}

#[test]
fn second_login_replaces_token() {
    let mut daemon = ProxyDaemon::new(server_conf());
    let mut store = PanStore::new(None);
    do_login(&mut daemon, &mut store);
    let again = LOGIN.replace("syt_test_token", "second");
    login_on(&mut daemon, &mut store, "/_matrix/client/v3/login", response(200, vec![], again.as_bytes()));
    let other = LOGIN.replace("syt_test_token", "third").replace("@alice", "@bob");
    login_on(&mut daemon, &mut store, "/_matrix/client/v3/login", response(200, vec![], other.as_bytes()));
    assert!(!daemon.is_known_token("syt_test_token"));
    assert!(matches!(daemon.resolve_client("syt_test_token"), Resolution::Ask));
    assert!(daemon.is_known_token("second"));
    assert!(matches!(daemon.resolve_client("third"), Resolution::Client(u) if u == "@bob:localhost"));
    assert_eq!(store.load_access_token("@alice:localhost", "DEVICE1").as_deref(), Some("second"));
    let mut users: Vec<String> = daemon.sessions().into_iter().map(|s| s.0).collect();
    users.sort();
    assert_eq!(users, vec!["@alice:localhost", "@bob:localhost"]);
}

#[test]
fn homeserver_is_asked_once_whose_token_it_is() {
    let mut daemon = ProxyDaemon::new(server_conf());
    let mut store = PanStore::new(None);
    do_login(&mut daemon, &mut store);
    assert_eq!(
        daemon.whoami_answered("other_device", Some(200), Some("@alice:localhost".to_owned())).as_deref(),
        Some("@alice:localhost")
    );
    assert!(matches!(daemon.resolve_client("other_device"), Resolution::Client(_)));
    assert!(daemon.whoami_answered("outside", Some(200), Some("@eve:localhost".to_owned())).is_none());
    assert!(matches!(daemon.resolve_client("outside"), Resolution::NoClient));
    assert!(!daemon.is_known_token("outside"));
    assert!(daemon.whoami_answered("new", Some(500), Some("@alice:localhost".to_owned())).is_none());
    assert!(daemon.whoami_answered("new", None, None).is_none());
    assert!(matches!(daemon.resolve_client("new"), Resolution::Ask));
    assert!(daemon.take_whoami("new", &None).is_none());
    assert!(daemon.take_whoami("new", &Some(response(200, vec![], b"{}"))).is_none());
    assert!(matches!(daemon.resolve_client("new"), Resolution::Ask));
    let whoami = response(200, vec![], b"{\"user_id\":\"@alice:localhost\"}");
    assert_eq!(daemon.take_whoami("new", &Some(whoami)).as_deref(), Some("@alice:localhost"));
    assert!(daemon.is_known_token("new"));
}

#[test]
fn answers_are_rewritten_for_sessions() {
    let good = response(200, vec![], b"{\"a\":1}");
    assert!(matches!(
        answer_plan(&good, Some("@a:h".to_owned())),
        AnswerPlan::Rewrite { user_id, body } if user_id == "@a:h" && body.get("a").is_some()
    ));
    for (answer, session) in [
        (response(200, vec![], b"{\"a\":1}"), None),
        (response(200, vec![], b"text"), Some("@a:h".to_owned())),
        (response(404, vec![], b"{}"), Some("@a:h".to_owned())),
    ] {
        match answer_plan(&answer, session) {
            AnswerPlan::PassBack(r) => assert_eq!((r.status, r.body), (answer.status, answer.body)),
            AnswerPlan::Rewrite { .. } => panic!("there is nothing to rewrite"),
        }
    }
    let daemon = ProxyDaemon::new(server_conf());
    let req = request("PUT", "/_matrix/client/v3/rooms/!r:h/send/m.room.message/1", vec![], b"{}");
    assert!(matches!(
        send_resolved(&daemon, &req, Some("@a:h".to_owned())),
        SendStart::Session { user_id } if user_id == "@a:h"
    ));
    assert!(matches!(
        send_resolved(&daemon, &req, None),
        SendStart::Plain(u) if u.method == "PUT" && u.body.as_deref() == Some(&b"{}"[..])
    ));
}

#[test]
fn encoded_rooms_are_rewritten_too() {
    let mut daemon = ProxyDaemon::new(server_conf());
    let mut store = PanStore::new(None);
    do_login(&mut daemon, &mut store);
    let req = request(
        "GET",
        "/_matrix/client/v3/rooms/%21r%3Ah/messages?dir=b",
        vec![header("authorization", "Bearer syt_test_token")],
        b"",
    );
    match messages(&daemon, &req) {
        MessagesPlan::Process { room_id, request, .. } => {
            assert_eq!(room_id, "!r:h");
            assert!(request.url.ends_with("/rooms/%21r%3Ah/messages?dir=b"));
        }
        MessagesPlan::PassBack(_) => panic!("there are a token and a room"),
    }
}

#[test]
fn syncs_tell_of_requests_for_keys() {
    let mut daemon = ProxyDaemon::new(server_conf());
    let mut store = PanStore::new(None);
    let mut client = do_login(&mut daemon, &mut store);
    let answer = response(
        200,
        vec![],
        b"{\"next_batch\":\"n\",\"to_device\":{\"events\":[{\"type\":\"m.room_key_request\",\
          \"sender\":\"@b:h\",\"content\":{\"action\":\"request\",\"requesting_device_id\":\"B\",\
          \"request_id\":\"1\",\"body\":{\"room_id\":\"!r:h\",\"session_id\":\"s\"}}}]}}",
    );
    let body = rewritable_body(&answer).unwrap();
    let (out, told) = finish_sync(&mut client, &answer, body, &vec![], &vec![]);
    assert_eq!(Json::parse(&out.body).unwrap().into_value(), Json::parse(&answer.body).unwrap().into_value());
    assert!(matches!(&told[..], [DaemonToUi::KeyRequest { pan_user, .. }] if pan_user == "@alice:localhost"));
    assert_eq!(client.take_key_wishes("@b:h", "B").len(), 1);
}

#[test]
fn changed_attachments_are_refused() {
    let (sealed, info) = PanClient::encrypt_attachment(&b"abc".to_vec()).unwrap();
    let media = record_of(&info, "h", "p");
    assert_eq!(media.iv.len(), 22);
    assert_eq!(media.hashes.keys(), vec!["sha256"]);
    let mut changed = sealed.clone();
    changed[0] ^= 1;
    assert!(PanClient::decrypt_attachment(&changed, info_of(&media).unwrap()).is_none());
    assert_eq!(PanClient::decrypt_attachment(&sealed, info_of(&media).unwrap()).unwrap(), b"abc");
}

#[test]
fn strange_users_get_no_session() {
    let mut daemon = ProxyDaemon::new(ServerConfig { use_keyring: true, ..server_conf() });
    let mut store = PanStore::new(None);
    let strange = LOGIN.replace("@alice:localhost", "alice");
    let outcome = login_on(
        &mut daemon,
        &mut store,
        "/_matrix/client/v3/login",
        response(200, vec![], strange.as_bytes()),
    );
    assert!(outcome.client.is_none());
    assert!(!daemon.is_known_token("syt_test_token"));
    assert_eq!(store.load_access_token("alice", "DEVICE1").as_deref(), Some("syt_test_token"));
    let kept = outcome.keyring.unwrap();
    assert_eq!(kept.key, "alice:DEVICE1");
    assert_eq!(kept.token, "syt_test_token");
    assert!(read_login(&b"{\"user_id\":\"@a:h\"}".to_vec()).is_none());
}

#[test]
fn answers_may_be_lists_of_their_parts() {
    let mut daemon = ProxyDaemon::new(server_conf());
    let mut store = PanStore::new(None);
    let answer = response(200, vec![], b"[\"@alice:localhost\",\"D\",\"t\"]");
    let outcome = take_login(&mut daemon, &mut store, answer);
    let l = outcome.recorded.unwrap();
    assert_eq!((l.user_id.as_str(), l.device_id.as_str(), l.access_token.as_str()), ("@alice:localhost", "D", "t"));
    assert!(daemon.is_known_token("t"));
    for refused in ["[\"@a:h\",\"D\"]", "[\"@a:h\",\"D\",\"t\",1]", "[\"@a:h\",\"D\",3]", "{}", "x"] {
        let outcome = take_login(&mut daemon, &mut store, response(200, vec![], refused.as_bytes()));
        assert!(outcome.recorded.is_none() && outcome.client.is_none(), "{refused}");
        assert_eq!(outcome.response.body, refused.as_bytes());
    }
    assert!(login(&mut daemon, &mut store, response(200, vec![], LOGIN.as_bytes()), None).recorded.is_none());
    let whoami = response(200, vec![], b"[\"@alice:localhost\"]");
    assert_eq!(daemon.take_whoami("u", &Some(whoami)).as_deref(), Some("@alice:localhost"));
    let req = request("POST", "/_matrix/media/v3/upload", vec![], b"abc");
    let taken = response(200, vec![], b"[\"mxc://h/a\"]");
    assert_eq!(take_upload(&daemon, &mut store, &req, &None, &taken).1.as_deref(), Some("mxc://h/a"));
}

#[test]
fn sessions_leave_other_tokens_alone() {
    let mut daemon = ProxyDaemon::new(server_conf());
    let mut store = PanStore::new(None);
    do_login(&mut daemon, &mut store);
    let whoami = response(200, vec![], b"{\"user_id\":\"@alice:localhost\"}");
    daemon.take_whoami("second", &Some(whoami));
    let again = LOGIN.replace("syt_test_token", "newer");
    take_login(&mut daemon, &mut store, response(200, vec![], again.as_bytes()));
    assert!(matches!(daemon.resolve_client("second"), Resolution::Client(u) if u == "@alice:localhost"));
    assert!(matches!(daemon.resolve_client("never seen"), Resolution::Ask));
}

#[test]
fn restored_sessions_prefer_the_keyring() {
    let mut daemon = ProxyDaemon::new(ServerConfig { use_keyring: true, ..server_conf() });
    let mut store = PanStore::new(None);
    store.save_access_token("@a:h", "D", "recorded");
    let out = restore_session(
        &mut daemon,
        &mut store,
        "@a:h".to_owned(),
        "D".to_owned(),
        "recorded".to_owned(),
        Some("kept".to_owned()),
    );
    assert_eq!(out.client.unwrap().token(), "kept");
    assert_eq!(out.keyring.unwrap().token, "kept");
    assert_eq!(store.load_access_token("@a:h", "D").as_deref(), Some("kept"));
    assert!(daemon.is_known_token("kept"));

    let mut plain = ProxyDaemon::new(server_conf());
    let out = restore_session(
        &mut plain,
        &mut store,
        "@a:h".to_owned(),
        "D".to_owned(),
        "kept".to_owned(),
        Some("ignored".to_owned()),
    );
    assert_eq!(out.client.unwrap().token(), "kept");
    assert!(out.keyring.is_none());
}

#[test]
fn http_settings_follow_the_configuration() {
    let daemon = ProxyDaemon::new(ServerConfig {
        proxy: Some("http://proxy:3128/".to_owned()),
        ssl: true,
        ..server_conf()
    });
    let settings = daemon.http_settings();
    assert_eq!(settings.proxy.as_deref(), Some("http://proxy:3128/"));
    assert!(!settings.accept_invalid_certs);
    assert!(ProxyDaemon::new(server_conf()).http_settings().accept_invalid_certs);
    assert_eq!(daemon.name(), "test");
    assert_eq!(daemon.config().listen_port, 8009);
}

#[test]
fn history_is_rewritten() {
    let mut daemon = ProxyDaemon::new(server_conf());
    let mut store = PanStore::new(None);
    do_login(&mut daemon, &mut store);
    let req = request(
        "GET",
        "/_matrix/client/v3/rooms/!r:h/messages?dir=b",
        vec![header("authorization", "Bearer syt_test_token")],
        b"",
    );
    let room = match messages(&daemon, &req) {
        MessagesPlan::Process { room_id, token, request } => {
            assert_eq!(token, "syt_test_token");
            assert!(request.url.ends_with("/messages?dir=b"));
            room_id
        }
        MessagesPlan::PassBack(_) => panic!("there are a token and a room"),
    };
    assert_eq!(room, "!r:h");
    let answer = response(
        200,
        vec![header("content-encoding", "gzip"), header("x-a", "b")],
        b"{\"start\":\"t1\",\"chunk\":[{\"type\":\"m.room.message\"},\
          {\"type\":\"m.room.encrypted\",\"event_id\":\"$e\",\"sender\":\"@b:h\"}],\"end\":\"t2\"}",
    );
    let body = rewritable_body(&answer).unwrap();
    let jobs = messages_jobs(&body, &room);
    assert_eq!(jobs.len(), 1);
    assert_eq!(jobs[0].index, 1);
    assert!(messages_jobs(&body, "r").is_empty());
    let clear = parse("{\"type\":\"m.room.message\",\"content\":{\"body\":\"hi\"},\"sender\":\"@c:h\"}");
    let decrypted: Vec<_> = jobs.into_iter().map(|j| (j, clear.copy())).collect();
    let out = finish_messages(&answer, body, &decrypted);
    assert_eq!(out.headers.len(), 1);
    let json = Json::parse(&out.body).unwrap();
    assert_eq!(json.get_text("start"), Some("t1"));
    assert_eq!(json.get_text("end"), Some("t2"));
    let chunk = json.get("chunk").unwrap().as_items().unwrap();
    assert_eq!(chunk[0].get_text("type"), Some("m.room.message"));
    assert_eq!(chunk[1].get_text("event_id"), Some("$e"));
    assert_eq!(chunk[1].get_text("sender"), Some("@b:h"));
    assert_eq!(chunk[1].get2("content", "body").unwrap().as_text(), Some("hi"));

    let nobody = request("GET", "/_matrix/client/v3/rooms/!r:h/messages", vec![], b"");
    assert!(matches!(messages(&daemon, &nobody), MessagesPlan::PassBack(_)));
    assert!(rewritable_body(&response(500, vec![], b"{}")).is_none());
    assert!(rewritable_body(&response(200, vec![], b"{")).is_none());
}

fn device(user: &str, id: &str, trust: Trust, cross_signed: bool) -> DeviceFacts {
    DeviceFacts {
        user_id: user.to_owned(),
        device_id: id.to_owned(),
        display_name: None,
        ed25519: None,
        trust,
        cross_signed,
    }
}

/// The answer to the question who is in a room.
fn joined(users: &[&str]) -> Option<Vec<u8>> {
    let entries: Vec<String> = users.iter().map(|u| format!("\"{u}\":{{\"display_name\":null}}")).collect();
    Some(format!("{{\"joined\":{{{}}}}}", entries.join(",")).into_bytes())
}

/// Drives a message as far as the question who is in the room.
fn ask_members(client: &mut PanClient, store: &PanStore, body: &Vec<u8>) -> Sending {
    client.mark_room_encrypted("!r:h");
    let sending = Sending::new("!r:h".to_owned(), "m.room.message".to_owned());
    let (sending, action) = sending.step(client, store, body, SendEvent::Begin);
    match action {
        SendAction::AskMembers(u) => {
            assert_eq!(u.url, format!("{HOMESERVER}/_matrix/client/v3/rooms/!r:h/joined_members"))
        }
        other => panic!("unexpected {other:?}"),
    }
    sending
}

#[test]
fn message_to_verified_devices_is_encrypted() {
    let mut daemon = ProxyDaemon::new(server_conf());
    let mut store = PanStore::new(None);
    let mut client = do_login(&mut daemon, &mut store);
    let body = b"{\"body\":\"hi\"}".to_vec();
    let sending = ask_members(&mut client, &store, &body);
    let members = joined(&["@bob:h", "@alice:localhost"]);
    let (sending, action) = sending.step(&mut client, &store, &body, SendEvent::Members(members));
    assert!(matches!(action, SendAction::ListDevices(l) if l == ["@alice:localhost", "@bob:h"]));
    let devices = vec![
        device("@alice:localhost", "OTHER", Trust::Unset, false),
        device("@bob:h", "B1", Trust::Verified, false),
        device("@bob:h", "B2", Trust::Unset, true),
        device("@bob:h", "B3", Trust::BlackListed, false),
    ];
    let (sending, action) = sending.step(&mut client, &store, &body, SendEvent::Devices(devices));
    match action {
        SendAction::Encrypt { content, members, ignore } => {
            assert_eq!(content.get_text("body"), Some("hi"));
            assert_eq!(members.len(), 2);
            assert!(ignore.is_empty());
        }
        other => panic!("unexpected {other:?}"),
    }
    let cipher = parse("{\"algorithm\":\"m.megolm.v1.aes-sha2\"}");
    let (sending, action) = sending.step(&mut client, &store, &body, SendEvent::Encrypted(Some(cipher)));
    assert!(matches!(sending.stage, Stage::Finished));
    let req = request(
        "PUT",
        "/_matrix/client/v3/rooms/!r:h/send/m.room.message/m.room.message?x=1",
        vec![],
        &body,
    );
    match action {
        SendAction::SendEncrypted(c) => {
            let u = encrypted_send(&daemon, &req, c);
            assert_eq!(
                u.url,
                format!("{HOMESERVER}/_matrix/client/v3/rooms/!r:h/send/m.room.encrypted/m.room.message?x=1")
            );
            assert_eq!(u.method, "PUT");
            assert_eq!(u.body.unwrap(), b"{\"algorithm\":\"m.megolm.v1.aes-sha2\"}");
        }
        other => panic!("unexpected {other:?}"),
    }
}

#[test]
fn encrypted_messages_keep_room_and_transaction() {
    let daemon = ProxyDaemon::new(server_conf());
    for (path, target) in [
        ("/send/m.room.message/7", "/send/m.room.encrypted/7"),
        ("/send/m%2Eroom.message/m.room.message", "/send/m.room.encrypted/m.room.message"),
        ("/send/send/send", "/send/m.room.encrypted/send"),
        ("/send/r/7", "/send/m.room.encrypted/7"),
    ] {
        let room = "/_matrix/client/v3/rooms/%21r%3Ah";
        let headers = vec![
            header("content-length", "2"),
            header("content-type", "application/json"),
            header("accept-encoding", "gzip"),
        ];
        let req = request("PUT", &format!("{room}{path}"), headers, b"{}");
        let u = encrypted_send(&daemon, &req, parse("{\"a\":[1]}"));
        assert_eq!(u.url, format!("{HOMESERVER}{room}{target}"));
        assert_eq!(u.headers.len(), 1);
        assert_eq!(u.headers[0].name, "content-type");
        assert_eq!(u.body.as_deref(), Some(&b"{\"a\":[1]}"[..]));
        let names: Vec<String> = plain_send(&daemon, &req).headers.into_iter().map(|h| h.name).collect();
        assert_eq!(names, ["content-length", "content-type"]);
    }
}

#[test]
fn members_are_read_out_of_an_answer() {
    let read = |text: &str| members_in(&text.as_bytes().to_vec());
    assert_eq!(read("{\"joined\":{\"@b:h\":{},\"@a:h\":null},\"x\":1}").unwrap(), ["@a:h", "@b:h"]);
    assert_eq!(read("{\"joined\":{}}").unwrap().len(), 0);
    assert_eq!(read("[{\"@a:h\":{}}]").unwrap(), ["@a:h"]);
    assert!(members_of(&parse("{\"joined\":{\"@a:h\":{}}}")).is_some());
    let key = b"{\"key\":\"abc\"}".to_vec();
    assert_eq!(default_key_type(&key).as_deref(), Some("m.secret_storage.key.abc"));
    assert!(default_key_type(&b"{\"key\":1}".to_vec()).is_none());
    for refused in [
        "",
        "{}",
        "[]",
        "[{},{}]",
        "{\"joined\":[\"@a:h\"]}",
        "{\"joined\":null}",
        "{\"joined\":{\"@a:h\":{},\"a\":{}}}",
        "{\"joined\":{\"@a\":{}}}",
    ] {
        assert!(read(refused).is_none(), "{refused}");
    }
}

#[test]
fn undecided_devices_hold_a_message_up() {
    let mut daemon = ProxyDaemon::new(server_conf());
    let mut store = PanStore::new(None);
    let mut client = do_login(&mut daemon, &mut store);
    let body = b"{\"body\":\"hi\"}".to_vec();
    for decision in [Decision::SendAnyways, Decision::Cancel, Decision::Timeout] {
        let sending = ask_members(&mut client, &store, &body);
        let members = joined(&["@bob:h"]);
        let (sending, _) = sending.step(&mut client, &store, &body, SendEvent::Members(members));
        let devices = vec![device("@bob:h", "B1", Trust::Unset, false), device("@bob:h", "B2", Trust::Ignored, false)];
        let (sending, action) = sending.step(&mut client, &store, &body, SendEvent::Devices(devices));
        match action {
            SendAction::AskUser(DaemonToUi::UnverifiedDevices { pan_user, room_id, .. }) => {
                assert_eq!(pan_user, "@alice:localhost");
                assert_eq!(room_id, "!r:h");
            }
            other => panic!("unexpected {other:?}"),
        }
        let (_, action) = sending.step(&mut client, &store, &body, SendEvent::Decided(decision));
        match (decision, action) {
            (Decision::SendAnyways, SendAction::Encrypt { ignore, .. }) => {
                assert_eq!(ignore, vec![("@bob:h".to_owned(), "B1".to_owned())])
            }
            (Decision::Cancel, SendAction::Refuse(e)) => {
                assert_eq!(e.message(), "sending was cancelled: the room has unverified devices");
                let r = e.into_response();
                assert_eq!(r.status, 500);
                assert_eq!(Json::parse(&r.body).unwrap().get_text("errcode"), Some("M_UNKNOWN"));
            }
            (Decision::Timeout, SendAction::Refuse(AppError::Internal(e))) => {
                assert_eq!(e, "sending was not confirmed in time: the room has unverified devices")
            }
            other => panic!("unexpected {other:?}"),
        }
    }
    assert_eq!(DECISION_SECONDS, 30);
}

#[test]
fn verification_can_be_ignored() {
    let mut daemon = ProxyDaemon::new(ServerConfig { ignore_verification: true, ..server_conf() });
    let mut store = PanStore::new(None);
    let mut client = do_login(&mut daemon, &mut store);
    let body = b"{\"body\":\"hi\"}".to_vec();
    let sending = ask_members(&mut client, &store, &body);
    let (sending, action) =
        sending.step(&mut client, &store, &body, SendEvent::Members(joined(&["@bob:h", "@a:h", "@bob:h"])));
    assert!(matches!(
        action,
        SendAction::Encrypt { members, ignore, .. } if members == ["@a:h", "@bob:h"] && ignore.is_empty()
    ));
    let (_, action) = sending.step(&mut client, &store, &body, SendEvent::Encrypted(None));
    assert!(matches!(action, SendAction::SendPlain));
}

#[test]
fn messages_that_cannot_be_encrypted_leave_as_they_came() {
    let mut daemon = ProxyDaemon::new(server_conf());
    let mut store = PanStore::new(None);
    let mut client = do_login(&mut daemon, &mut store);
    client.mark_room_encrypted("!r:h");
    client.mark_room_encrypted("strange");
    let no_json = b"{".to_vec();
    let sending = Sending::new("!r:h".to_owned(), "t".to_owned());
    assert!(matches!(sending.step(&mut client, &store, &no_json, SendEvent::Begin).1, SendAction::SendPlain));
    let body = b"{}".to_vec();
    let sending = Sending::new("strange".to_owned(), "t".to_owned());
    assert!(matches!(sending.step(&mut client, &store, &body, SendEvent::Begin).1, SendAction::SendPlain));
    for answer in [None, Some(b"{".to_vec()), joined(&["@bob:h", "nobody"])] {
        let sending = ask_members(&mut client, &store, &body);
        assert!(matches!(
            sending.step(&mut client, &store, &body, SendEvent::Members(answer)).1,
            SendAction::SendPlain
        ));
    }
    let sending = Sending::new("!r:h".to_owned(), "t".to_owned());
    match sending.step(&mut client, &store, &body, SendEvent::Members(None)).1 {
        SendAction::Refuse(e) => assert_eq!(e.message(), "sending was interrupted"),
        other => panic!("unexpected {other:?}"),
    }
    let sending = Sending::new("!new:h".to_owned(), "t".to_owned());
    let (sending, _) = sending.step(&mut client, &store, &body, SendEvent::Begin);
    let (_, action) = sending.step(&mut client, &store, &body, SendEvent::RoomAnswered(Some(200)));
    assert!(matches!(action, SendAction::AskMembers(_)));
    assert!(client.is_room_encrypted("!new:h"));
    assert!(matches!(
        Sending::prepare_content(&client, &store, "!new:h", parse("{}")).1,
        SendAction::AskMembers(_)
    ));
}

#[test]
fn decisions_are_about_a_user_and_a_room() {
    let cmd = UiToDaemon::SendAnyways {
        message_id: "0".to_owned(),
        pan_user: "@a:h".to_owned(),
        room_id: "!r:h".to_owned(),
    };
    assert_eq!(decision_of(&cmd, "@a:h", "!r:h"), Some(Decision::SendAnyways));
    assert_eq!(decision_of(&cmd, "@b:h", "!r:h"), None);
    assert_eq!(decision_of(&cmd, "@a:h", "!s:h"), None);
    let cmd = UiToDaemon::CancelSending {
        message_id: "0".to_owned(),
        pan_user: "@a:h".to_owned(),
        room_id: "!r:h".to_owned(),
    };
    assert_eq!(decision_of(&cmd, "@a:h", "!r:h"), Some(Decision::Cancel));
}

#[test]
fn addresses_in_paths() {
    assert_eq!(mxc_from_path("/_matrix/media/v3/download/h/id"), Some(("h", "id")));
    assert_eq!(mxc_from_path("/_matrix/media/v3/download/h/id/name.png"), Some(("h", "id")));
    assert_eq!(mxc_from_path("/_matrix/media/v3/download/h"), None);
    assert_eq!(mxc_from_path("/_matrix/media/v3/thumbnail/h/id"), None);
    assert_eq!(mxc_from_path("/download/a/b/download/c/d"), Some(("a", "b")));
    assert_eq!(
        mxc_from_path("/_matrix/media/v3/download/matrix.org/download/cat.png"),
        Some(("matrix.org", "download"))
    );
}

#[test]
fn sealing_is_for_known_users_with_something_to_seal() {
    let mut daemon = ProxyDaemon::new(server_conf());
    let mut store = PanStore::new(None);
    do_login(&mut daemon, &mut store);
    let auth = || vec![header("authorization", "Bearer syt_test_token")];
    let empty = request("POST", "/_matrix/media/v3/upload", auth(), b"");
    assert!(upload(&daemon, &empty).info.is_none());
    let known = request("POST", "/_matrix/media/v3/upload", auth(), b"abc");
    let failed = upload_sealed(&daemon, &known, None);
    assert!(failed.info.is_none());
    assert_eq!(failed.request.body.as_deref(), Some(&b"abc"[..]));
    let sealed = PanClient::encrypt_attachment(&b"abc".to_vec()).unwrap();
    let bytes = sealed.0.clone();
    let plan = upload_sealed(&daemon, &known, Some(sealed));
    assert_eq!(plan.request.body, Some(bytes.clone()));
    assert_eq!(PanClient::decrypt_attachment(&bytes, plan.info.unwrap()).unwrap(), b"abc");
    let unknown = request("POST", "/_matrix/media/v3/upload", vec![], b"abc");
    assert!(upload_sealed(&daemon, &unknown, PanClient::encrypt_attachment(&b"abc".to_vec())).info.is_none());
}

#[test]
fn damaged_downloads_are_passed_on() {
    let mut daemon = ProxyDaemon::new(server_conf());
    let mut store = PanStore::new(None);
    do_login(&mut daemon, &mut store);
    let req = request(
        "POST",
        "/_matrix/media/v3/upload",
        vec![header("authorization", "Bearer syt_test_token")],
        b"abc",
    );
    let plan = upload(&daemon, &req);
    let failed = response(500, vec![], b"{}");
    upload_answered(&daemon, &mut store, &req, &plan.info, &failed, &Some("mxc://h/a".to_owned()));
    assert!(store.load_media("test", "h", "a").unwrap().is_none());
    let taken = response(200, vec![], b"{}");
    upload_answered(&daemon, &mut store, &req, &plan.info, &taken, &None);
    upload_answered(&daemon, &mut store, &req, &plan.info, &taken, &Some("nowhere".to_owned()));
    let named = response(200, vec![], b"{\"content_uri\":\"mxc://h/a\"}");
    let (out, uri) = take_upload(&daemon, &mut store, &req, &plan.info, &named);
    assert_eq!((out.body, uri.as_deref()), (named.body, Some("mxc://h/a")));
    let get = request("GET", "/_matrix/media/v3/download/h/a", vec![], b"");
    let fetch = |store: &PanStore| match download(&daemon, store, &get) {
        DownloadPlan::Fetch { info, .. } => info,
        DownloadPlan::Forward(_) => panic!("the keys are recorded"),
    };
    assert!(matches!(
        download_answered(&response(200, vec![], b"xyz"), fetch(&store)),
        DownloadStep::Forward
    ));
    match download_answered(&response(404, vec![], b"gone"), fetch(&store)) {
        DownloadStep::Respond(r) => assert_eq!((r.status, &r.body[..]), (404, &b"gone"[..])),
        DownloadStep::Forward => panic!("a failure is passed back"),
    }
    store.restore_media("test", "h", "bad", "{", "iv", "{}");
    let bad = request("GET", "/_matrix/media/v3/download/h/bad", vec![], b"");
    assert!(matches!(download(&daemon, &store, &bad), DownloadPlan::Forward(_)));
    store.restore_media("test", "h", "odd", "{}", "iv", "{}");
    let odd = request("GET", "/_matrix/media/v3/download/h/odd", vec![], b"");
    assert!(matches!(download(&daemon, &store, &odd), DownloadPlan::Forward(_)));
    let none = request("GET", "/_matrix/media/v3/download/h", vec![], b"");
    assert!(matches!(download(&daemon, &store, &none), DownloadPlan::Forward(_)));
}
