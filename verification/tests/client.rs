//! The session of a user: syncs, verifications, devices, commands and media.

use pantalaimon::client::commands::{no_session, Outcome, UiAction, UiStep};
use pantalaimon::client::devices::{
    blocking_devices, describe_device, trust_state, DeviceFacts, Trust,
};
use pantalaimon::client::events::{decrypt_jobs, show_event};
use pantalaimon::client::keys::{key_message, withheld_content};
use pantalaimon::client::media::split_mxc;
use pantalaimon::client::requests::{read_reply, reply_from, OutgoingRequest, Reply, ReplyError};
use pantalaimon::client::sync::{sync_inputs, sync_invites, Invite};
use pantalaimon::client::verification::{
    pending_step, pick_request, sas_name, PendingFacts, PendingOutcome, PendingStep, RequestFacts,
    SasFacts,
};
use pantalaimon::client::{ClientError, PanClient};
use pantalaimon::config::ServerConfig;
use pantalaimon::ids::is_user_id;
use pantalaimon::json::Json;
use pantalaimon::messages::{DaemonToUi, UiToDaemon};
use pantalaimon::store::{MediaInfo, PanStore, StoreError};

fn conf() -> ServerConfig {
    ServerConfig {
        name: "test".to_owned(),
        homeserver: "https://h.example/".to_owned(),
        listen_address: "127.0.0.1".to_owned(),
        listen_port: 8009,
        proxy: None,
        ssl: true,
        ignore_verification: false,
        use_keyring: false,
        search_requests: false,
        index_encrypted_only: true,
        indexing_batch_size: 100,
        history_fetch_delay: 3000,
        drop_old_keys: false,
    }
}

fn client() -> PanClient {
    PanClient::new("@alice:h".to_owned(), "DEV".to_owned(), "tok".to_owned(), conf()).unwrap()
}

fn parse(text: &str) -> Json {
    Json::parse(text.as_bytes()).unwrap()
}

#[test]
fn sessions_are_for_matrix_users() {
    let c = client();
    assert_eq!(c.user(), "@alice:h");
    assert_eq!(c.token(), "tok");
    assert_eq!(c.server_name(), "test");
    assert_eq!(c.homeserver(), "https://h.example/");
    assert!(!c.ignores_verification());
    for bad in ["alice", "@alice", "alice:h", "@alice:h h", ""] {
        let r = PanClient::new(bad.to_owned(), "D".to_owned(), "t".to_owned(), conf());
        assert_eq!(r.err(), Some(ClientError::InvalidUserId), "{bad}");
    }
    assert!(is_user_id("@a:[::1]:8448"));
    assert!(!is_user_id("@a:h:port"));
}

#[test]
fn encrypted_rooms_are_remembered() {
    let mut c = client();
    assert!(!c.is_room_encrypted("!a:h"));
    c.mark_room_encrypted("!a:h");
    c.mark_room_encrypted("!a:h");
    assert!(c.is_room_encrypted("!a:h"));
    assert!(!c.is_room_encrypted("!b:h"));
}

const SYNC: &str = r#"{
    "next_batch": "s9",
    "device_lists": {"changed": ["@b:h"]},
    "device_one_time_keys_count": {"signed_curve25519": 20},
    "to_device": {"events": [
        {"type": "m.key.verification.request", "sender": "@b:h", "content": {"transaction_id": "t1"}},
        {"type": "m.key.verification.request", "sender": "strange", "content": {"transaction_id": "t2"}},
        {"type": "m.key.verification.request", "sender": "@b:h", "content": {}},
        {"type": "m.other", "sender": "@b:h", "content": {"transaction_id": "t3"}}
    ]},
    "rooms": {"join": {
        "!a:h": {
            "state": {"events": [{"type": "m.room.encryption"}]},
            "timeline": {"events": [
                {"type": "m.room.message", "event_id": "$1"},
                {"type": "m.room.encrypted", "event_id": "$2", "sender": "@b:h",
                 "origin_server_ts": 5, "unsigned": {"age": 1}, "content": {"ciphertext": "x"}},
                {"type": "m.room.encrypted", "event_id": "$3"}
            ]}
        },
        "!b/~1:h": {"timeline": {"events": [{"type": "m.room.encryption"}, {"type": "m.room.encrypted", "event_id": "$4"}]}},
        "odd": {"timeline": {"events": [{"type": "m.room.encrypted", "event_id": "$5"}]}},
        "!c:h": {}
    }}
}"#;

#[test]
fn sync_is_rewritten() {
    let mut c = client();
    let mut body = parse(SYNC);
    let inputs = sync_inputs(&body);
    assert_eq!(inputs.to_device_events.len(), 4);
    assert_eq!(inputs.next_batch.as_deref(), Some("s9"));
    assert!(inputs.device_lists.unwrap().get("changed").is_some());
    assert!(inputs.one_time_key_counts.unwrap().get("signed_curve25519").is_some());

    let mut jobs = decrypt_jobs(&body);
    jobs.sort_by(|a, b| (&a.room_id, a.index).cmp(&(&b.room_id, b.index)));
    let places: Vec<(String, usize)> = jobs.iter().map(|j| (j.room_id.clone(), j.index)).collect();
    assert_eq!(
        places,
        vec![("!a:h".to_owned(), 1), ("!a:h".to_owned(), 2), ("!b/~1:h".to_owned(), 1)]
    );
    let invites = sync_invites(&body);
    assert_eq!(invites.len(), 1);
    assert_eq!(invites[0].user_id, "@b:h");
    assert_eq!(invites[0].transaction_id, "t1");

    let clear = r#"{"type": "m.room.message", "content": {"body": "hi"}, "sender": "@evil:h"}"#;
    let decrypted: Vec<_> = jobs
        .into_iter()
        .filter(|j| j.event.get_text("event_id") != Some("$3"))
        .map(|j| (j, parse(clear)))
        .collect();
    let found: Vec<(Invite, String)> = invites.into_iter().map(|i| (i, "BDEV".to_owned())).collect();
    let told = c.process_sync(&mut body, &decrypted, &found);
    assert_eq!(told.len(), 1);
    match &told[0] {
        DaemonToUi::SasInvite { pan_user, user_id, device_id, transaction_id } => {
            assert_eq!((pan_user.as_str(), user_id.as_str()), ("@alice:h", "@b:h"));
            assert_eq!((device_id.as_str(), transaction_id.as_str()), ("BDEV", "t1"));
        }
        other => panic!("unexpected {other:?}"),
    }
    assert!(c.note_invites(&found).is_empty(), "an invitation is told once");

    assert!(c.is_room_encrypted("!a:h"));
    assert!(c.is_room_encrypted("!b/~1:h"));
    assert!(!c.is_room_encrypted("!c:h"));

    assert_eq!(body.get_text("next_batch"), Some("s9"));
    let events = |room: &str| {
        body.pointer(&vec!["rooms", "join", room, "timeline", "events"], 0).unwrap().as_items().unwrap()
    };
    let a = events("!a:h");
    assert_eq!(a.len(), 3);
    assert_eq!(a[0].get_text("event_id"), Some("$1"));
    assert_eq!(a[1].get_text("type"), Some("m.room.message"));
    assert_eq!(a[1].get_text("event_id"), Some("$2"));
    assert_eq!(a[1].get_text("sender"), Some("@b:h"));
    assert_eq!(a[1].get2("content", "body").unwrap().as_text(), Some("hi"));
    assert!(a[1].get2("unsigned", "age").is_some());
    assert!(a[1].get("room_id").is_none());
    assert_eq!(a[2].get_text("type"), Some("m.room.encrypted"));
    assert_eq!(events("!b/~1:h")[1].get_text("type"), Some("m.room.message"));
    assert_eq!(events("odd")[0].get_text("type"), Some("m.room.encrypted"));
}

#[test]
fn events_keep_what_the_homeserver_says() {
    let event = parse(r#"{"type": "m.room.encrypted", "event_id": "$e", "room_id": "!r:h"}"#);
    let shown = show_event(&event, Json::Null);
    assert_eq!(shown.get_text("event_id"), Some("$e"));
    assert_eq!(shown.get_text("room_id"), Some("!r:h"));
    let clear = || Some(parse(r#"{"content": {}}"#));
    assert_eq!(PanClient::decrypt_event("!r:h", &event, clear()).unwrap().get_text("event_id"), Some("$e"));
    assert!(PanClient::decrypt_event("r", &event, clear()).is_none());
    assert!(PanClient::decrypt_event("!r:h", &event, None).is_none());
}

fn sas(finished: bool, emoji: bool) -> SasFacts {
    SasFacts {
        finished,
        emoji: if emoji { Some(vec![("🐶".to_owned(), "Dog".to_owned())]) } else { None },
        user_id: "@b:h".to_owned(),
        device_id: "B".to_owned(),
        flow_id: "f".to_owned(),
    }
}

#[test]
fn verifications_run_their_course() {
    let mut c = client();
    c.note_request("f", "@b:h");
    assert_eq!(c.pending(), vec![("f".to_owned(), "@b:h".to_owned())]);
    let look = |o: PendingOutcome| vec![("f".to_owned(), "@b:h".to_owned(), o)];
    c.check_pending_requests(&look(PendingOutcome::Waiting));
    assert_eq!(c.pending().len(), 1);
    c.check_pending_requests(&look(PendingOutcome::Started {
        device_id: "B".to_owned(),
        flow_id: "f".to_owned(),
    }));
    assert!(c.pending().is_empty());
    assert_eq!(c.running(), vec![("@b:h:B".to_owned(), "f".to_owned())]);
    assert_eq!(c.running_sas("@b:h", "B").as_deref(), Some("f"));

    let key = sas_name("@b:h", "B");
    assert!(c.check_sas_states(&vec![(key.clone(), sas(false, false))]).is_empty());
    let told = c.check_sas_states(&vec![(key.clone(), sas(false, true))]);
    assert!(matches!(&told[..], [DaemonToUi::SasShow { emoji, transaction_id, .. }]
        if emoji[0].1 == "Dog" && transaction_id == "f"));
    assert!(c.check_sas_states(&vec![(key.clone(), sas(false, true))]).is_empty());
    c.note_sas("@b:h", "B", "g");
    assert!(c.check_sas_states(&vec![(key.clone(), sas(false, true))]).is_empty());
    assert!(c.check_sas_states(&vec![(key.clone(), sas(true, true))]).is_empty());
    c.note_sas("@b:h", "B", "f");
    assert_eq!(c.check_sas_states(&vec![(key.clone(), sas(false, true))]).len(), 1);
    c.note_sas("@c:h", "C", "f");
    let other = sas_name("@c:h", "C");
    let told = c.check_sas_states(&vec![
        (other.clone(), sas(false, false)),
        (key.clone(), sas(true, true)),
    ]);
    assert!(matches!(&told[..], [DaemonToUi::SasDone { device_id, transaction_id, .. }]
        if device_id == "B" && transaction_id == "f"));
    assert!(c.check_sas_states(&vec![(key.clone(), sas(true, true))]).is_empty());
    assert_eq!(c.running(), vec![(other, "f".to_owned())]);
    assert_eq!(c.forget_sas("@c:h", "C").as_deref(), Some("f"));
    assert!(c.running().is_empty());
    assert!(c.forget_sas("@b:h", "B").is_none());

    for over in [PendingOutcome::Unknown, PendingOutcome::Finished, PendingOutcome::Failed] {
        c.note_request("f", "@b:h");
        c.check_pending_requests(&look(over));
        assert!(c.pending().is_empty());
    }
    c.note_request("x", "nobody");
    c.check_pending_requests(&vec![("x".to_owned(), "nobody".to_owned(), PendingOutcome::Waiting)]);
    assert!(c.pending().is_empty());
}

#[test]
fn pending_steps() {
    let facts = |done, cancelled, ready| Some(PendingFacts { done, cancelled, ready });
    assert_eq!(pending_step(None), PendingStep::Drop);
    assert_eq!(pending_step(facts(true, false, true)), PendingStep::Finish);
    assert_eq!(pending_step(facts(false, true, true)), PendingStep::Finish);
    assert_eq!(pending_step(facts(false, false, true)), PendingStep::Start);
    assert_eq!(pending_step(facts(false, false, false)), PendingStep::Wait);
}

#[test]
fn open_requests_are_picked() {
    let req = |device: Option<&str>, done, we_started| RequestFacts {
        device_id: device.map(str::to_owned),
        done,
        we_started,
    };
    let requests = vec![
        req(None, false, false),
        req(Some("B"), true, false),
        req(Some("B"), false, true),
        req(Some("B"), false, false),
        req(Some("B"), false, false),
    ];
    assert_eq!(pick_request(&requests, "B"), Some(3));
    assert_eq!(pick_request(&requests, "C"), None);
}

fn device(trust: Trust, cross_signed: bool) -> DeviceFacts {
    DeviceFacts {
        user_id: "@b:h".to_owned(),
        device_id: "B".to_owned(),
        display_name: Some("phone".to_owned()),
        ed25519: None,
        trust,
        cross_signed,
    }
}

#[test]
fn devices_are_described() {
    let row = describe_device(&device(Trust::Verified, false));
    let pair = |a: &str, b: &str| (a.to_owned(), b.to_owned());
    assert_eq!(
        row,
        vec![
            pair("user_id", "@b:h"),
            pair("device_id", "B"),
            pair("device_display_name", "phone"),
            pair("ed25519", ""),
            pair("trust_state", "verified"),
        ]
    );
    assert_eq!(trust_state(Trust::Unset, true), "cross-signing-verified");
    assert_eq!(trust_state(Trust::Unset, false), "unset");
    assert_eq!(trust_state(Trust::BlackListed, true), "blacklisted");
    assert_eq!(trust_state(Trust::Ignored, false), "ignored");
    let devices = vec![device(Trust::Unset, false), device(Trust::Ignored, false)];
    assert_eq!(PanClient::list_user_devices("@b:h", &devices).len(), 2);
    assert!(PanClient::list_user_devices("b", &devices).is_empty());
    assert!(client().list_all_devices().is_empty());
    assert_eq!(blocking_devices("@a:h", &devices), vec![pair("@b:h", "B")]);
    assert!(blocking_devices("@b:h", &devices).is_empty());
    assert!(blocking_devices("@a:h", &vec![device(Trust::Unset, true)]).is_empty());
}

fn cmd_device(make: fn(String, String, String, String) -> UiToDaemon, user: &str) -> UiToDaemon {
    make("7".to_owned(), "@alice:h".to_owned(), user.to_owned(), "B".to_owned())
}

fn verify(message_id: String, pan_user: String, user_id: String, device_id: String) -> UiToDaemon {
    UiToDaemon::VerifyDevice { message_id, pan_user, user_id, device_id }
}

fn confirm(message_id: String, pan_user: String, user_id: String, device_id: String) -> UiToDaemon {
    UiToDaemon::ConfirmSas { message_id, pan_user, user_id, device_id }
}

fn cancel(message_id: String, pan_user: String, user_id: String, device_id: String) -> UiToDaemon {
    UiToDaemon::CancelSas { message_id, pan_user, user_id, device_id }
}

fn key_share(message_id: String, pan_user: String, user_id: String, device_id: String) -> UiToDaemon {
    UiToDaemon::ContinueKeyShare { message_id, pan_user, user_id, device_id }
}

fn response(m: &DaemonToUi) -> (&str, &str, &str, &str) {
    match m {
        DaemonToUi::Response { message_id, pan_user, code, message } => {
            (message_id, pan_user, code, message)
        }
        other => panic!("unexpected {other:?}"),
    }
}

#[test]
fn commands_are_answered() {
    let mut c = client();
    let cmd = cmd_device(verify, "@b:h");
    match c.handle_ui_command(&cmd) {
        UiStep::Act(UiAction::SetTrust { user_id, device_id, trust }) => {
            assert_eq!((user_id.as_str(), device_id.as_str(), trust), ("@b:h", "B", Trust::Verified))
        }
        other => panic!("unexpected {other:?}"),
    }
    assert_eq!(response(&c.command_done(&cmd, &Outcome::Done)), ("7", "@alice:h", "M_OK", "Device verified"));
    assert_eq!(
        response(&c.command_done(&cmd, &Outcome::NoDevice)),
        ("7", "@alice:h", "M_UNKNOWN", "device B not found for @b:h")
    );
    assert_eq!(
        response(&c.command_done(&cmd, &Outcome::NoRequest)).3,
        "no pending verification request from @b:h:B"
    );
    assert_eq!(response(&c.command_done(&cmd, &Outcome::Failed("why".to_owned()))).3, "why");

    match c.handle_ui_command(&cmd_device(verify, "b:h")) {
        UiStep::Respond(m) => assert_eq!(
            response(&m),
            ("7", "@alice:h", "M_UNKNOWN", "leading sigil is incorrect or missing")
        ),
        other => panic!("unexpected {other:?}"),
    }
    match c.command_step(&cmd, Some("odd".to_owned())) {
        UiStep::Respond(m) => assert_eq!(response(&m).3, "odd"),
        other => panic!("unexpected {other:?}"),
    }
    match c.handle_ui_command(&cmd_device(key_share, "@b:h")) {
        UiStep::Respond(m) => assert_eq!(
            response(&m),
            ("7", "@alice:h", "M_UNKNOWN", "no pending key request from @b:h:B")
        ),
        other => panic!("unexpected {other:?}"),
    }
    let held = UiToDaemon::SendAnyways {
        message_id: "0".to_owned(),
        pan_user: "@alice:h".to_owned(),
        room_id: "!r:h".to_owned(),
    };
    assert!(matches!(c.handle_ui_command(&held), UiStep::Nothing));
    let keys = UiToDaemon::ExportKeys {
        message_id: "8".to_owned(),
        pan_user: "@alice:h".to_owned(),
        file_path: "/f".to_owned(),
        passphrase: "p".to_owned(),
    };
    assert!(matches!(c.handle_ui_command(&keys), UiStep::Act(UiAction::ExportKeys { file_path, .. }) if file_path == "/f"));
    assert_eq!(response(&c.command_done(&keys, &Outcome::Done)).3, "Keys exported");
    let identity = UiToDaemon::RecoverIdentity {
        message_id: "9".to_owned(),
        pan_user: "@alice:h".to_owned(),
        key_input: "k".to_owned(),
    };
    assert!(matches!(c.handle_ui_command(&identity), UiStep::Act(UiAction::RecoverIdentity { key_input }) if key_input == "k"));
    assert_eq!(
        response(&no_session(&keys)),
        ("8", "@alice:h", "M_NOT_FOUND", "No session for that user — log in through pantalaimon first")
    );
}

fn reject(message_id: String, pan_user: String, user_id: String, device_id: String) -> UiToDaemon {
    UiToDaemon::CancelKeyShare { message_id, pan_user, user_id, device_id }
}

fn key_event(action: &str, device: &str, request: &str) -> String {
    format!(
        "{{\"type\":\"m.room_key_request\",\"sender\":\"@b:h\",\"content\":{{\"action\":\"{action}\",\
         \"requesting_device_id\":\"{device}\",\"request_id\":\"{request}\",\
         \"body\":{{\"room_id\":\"!r:h\",\"session_id\":\"s-{request}\"}}}}}}"
    )
}

fn sent(events: &[String]) -> Json {
    parse(&format!("{{\"to_device\":{{\"events\":[{}]}}}}", events.join(",")))
}

#[test]
fn requests_for_keys_wait_for_a_decision() {
    let mut c = client();
    let told = c.note_key_requests(&sent(&[
        key_event("request", "B", "1"),
        key_event("request", "B", "1"),
        key_event("request", "C", "2"),
        key_event("request", "C", "3"),
        "{\"type\":\"m.room_key_request\",\"sender\":\"@b:h\"}".to_owned(),
        "{\"type\":\"m.dummy\"}".to_owned(),
        key_event("request_cancellation", "C", "3"),
    ]));
    assert_eq!(told.len(), 3);
    assert!(matches!(&told[0], DaemonToUi::KeyRequest { pan_user, event }
        if pan_user == "@alice:h" && event.get_text("sender") == Some("@b:h")));
    assert!(c.note_key_requests(&sent(&[key_event("request", "B", "1")])).is_empty());
    assert!(c.note_key_requests(&parse("{}")).is_empty());

    let forward = cmd_device(key_share, "@b:h");
    match c.handle_ui_command(&forward) {
        UiStep::Act(UiAction::ForwardKeys { user_id, device_id, wishes }) => {
            assert_eq!((user_id.as_str(), device_id.as_str(), wishes.len()), ("@b:h", "B", 1));
            assert_eq!(wishes[0].request_id, "1");
            assert_eq!((wishes[0].room_id.as_str(), wishes[0].session_id.as_str()), ("!r:h", "s-1"));
            let message = key_message("m.room_key.withheld", "t", &wishes[0], withheld_content(&wishes[0], "K"));
            match message {
                OutgoingRequest::ToDevice { event_type, txn_id, messages } => {
                    assert_eq!((event_type.as_str(), txn_id.as_str()), ("m.room_key.withheld", "t"));
                    assert_eq!(
                        messages.write(),
                        "{\"@b:h\":{\"B\":{\"algorithm\":\"m.megolm.v1.aes-sha2\",\
                         \"code\":\"m.unauthorised\",\"reason\":\"The key request was rejected.\",\
                         \"room_id\":\"!r:h\",\"sender_key\":\"K\",\"session_id\":\"s-1\"}}}"
                    );
                }
                other => panic!("unexpected {other:?}"),
            }
        }
        other => panic!("unexpected {other:?}"),
    }
    assert_eq!(response(&c.command_done(&forward, &Outcome::Done)), ("7", "@alice:h", "M_OK", "Keys forwarded"));
    assert!(matches!(c.handle_ui_command(&forward), UiStep::Respond(_)));
    let cancel = UiToDaemon::CancelKeyShare {
        message_id: "7".to_owned(),
        pan_user: "@alice:h".to_owned(),
        user_id: "@b:h".to_owned(),
        device_id: "C".to_owned(),
    };
    assert!(matches!(c.handle_ui_command(&cancel), UiStep::Act(UiAction::RejectKeys { wishes, .. })
        if wishes.len() == 1 && wishes[0].request_id == "2"));
    assert_eq!(response(&c.command_done(&cancel, &Outcome::Done)).3, "Key request rejected");
    assert!(c.take_key_wishes("@b:h", "C").is_empty());
    assert!(matches!(c.handle_ui_command(&cmd_device(reject, "@b:h")), UiStep::Respond(_)));
}

#[test]
fn own_requests_for_keys_do_not_wait() {
    let mut c = client();
    let own = format!(
        "{{\"type\":\"m.room_key_request\",\"sender\":\"@alice:h\",\"content\":{{\"action\":\"request\",\
         \"requesting_device_id\":\"{}\",\"request_id\":\"1\",\
         \"body\":{{\"room_id\":\"!r:h\",\"session_id\":\"s\"}}}}}}",
        c.device_id
    );
    assert!(c.note_key_requests(&sent(&[own])).is_empty());
}

#[test]
fn running_verifications_are_confirmed_and_cancelled() {
    let mut c = client();
    match c.handle_ui_command(&cmd_device(confirm, "@b:h")) {
        UiStep::Respond(m) => assert_eq!(response(&m).3, "no active SAS with @b:h:B"),
        other => panic!("unexpected {other:?}"),
    }
    assert!(matches!(
        c.handle_ui_command(&cmd_device(cancel, "@b:h")),
        UiStep::Act(UiAction::CancelSas { running: None, .. })
    ));
    c.note_sas("@b:h", "B", "f");
    assert!(matches!(
        c.handle_ui_command(&cmd_device(confirm, "@b:h")),
        UiStep::Act(UiAction::ConfirmSas { flow_id, .. }) if flow_id == "f"
    ));
    assert!(matches!(
        c.handle_ui_command(&cmd_device(cancel, "@b:h")),
        UiStep::Act(UiAction::CancelSas { running: Some(f), .. }) if f == "f"
    ));
    assert!(c.running().is_empty());
}

#[test]
fn crypto_requests_become_http_requests() {
    let c = client();
    let u = c.outgoing_request(OutgoingRequest::KeysUpload {
        device_keys: parse("{\"a\":1}"),
        one_time_keys: parse("{}"),
        fallback_keys: Json::Null,
    });
    assert_eq!(u.method, "POST");
    assert_eq!(u.url, "https://h.example/_matrix/client/v3/keys/upload");
    assert_eq!(u.headers[0].value, b"Bearer tok");
    assert_eq!(u.headers[1].value, b"application/json");
    let body = Json::parse(&u.body.unwrap()).unwrap();
    assert!(body.get2("device_keys", "a").is_some());
    assert!(matches!(body.get("fallback_keys"), Some(Json::Null)));
    let u = c.outgoing_request(OutgoingRequest::ToDevice {
        event_type: "m.x".to_owned(),
        txn_id: "t".to_owned(),
        messages: parse("{}"),
    });
    assert_eq!((u.method.as_str(), u.url.as_str()), ("PUT", "https://h.example/_matrix/client/v3/sendToDevice/m.x/t"));
    assert_eq!(u.body.unwrap(), b"{\"messages\":{}}");
    let u = c.outgoing_request(OutgoingRequest::RoomMessage {
        room_id: "!r:h".to_owned(),
        event_type: "m.y".to_owned(),
        txn_id: "t".to_owned(),
        content: parse("{\"b\":\"c\"}"),
    });
    assert_eq!(u.url, "https://h.example/_matrix/client/v3/rooms/!r:h/send/m.y/t");
    assert_eq!(u.body.unwrap(), b"{\"b\":\"c\"}");
    let u = c.outgoing_request(OutgoingRequest::KeysQuery { device_keys: parse("{}") });
    assert_eq!(u.url, "https://h.example/_matrix/client/v3/keys/query");
    let u = c.outgoing_request(OutgoingRequest::KeysClaim { one_time_keys: parse("{}") });
    assert_eq!(u.url, "https://h.example/_matrix/client/v3/keys/claim");
    let u = c.outgoing_request(OutgoingRequest::SignatureUpload { signed_keys: parse("{}") });
    assert_eq!(u.url, "https://h.example/_matrix/client/v3/keys/signatures/upload");
    assert_eq!(
        c.account_data_request("m.x").url,
        "https://h.example/_matrix/client/v3/user/@alice:h/account_data/m.x"
    );
}

#[test]
fn replies_are_read() {
    let query = OutgoingRequest::KeysQuery { device_keys: Json::Null };
    match read_reply(&query, &b"{\"device_keys\":{},\"master_keys\":{\"x\":1}}".to_vec()) {
        Ok(Reply::KeysQuery { device_keys: Some(_), master_keys: Some(m), self_signing_keys: None, .. }) => {
            assert!(m.get("x").is_some())
        }
        other => panic!("unexpected {other:?}"),
    }
    assert_eq!(read_reply(&query, &b"no".to_vec()).err(), Some(ReplyError::NotJson));
    let device = OutgoingRequest::ToDevice {
        event_type: "e".to_owned(),
        txn_id: "t".to_owned(),
        messages: Json::Null,
    };
    assert!(matches!(read_reply(&device, &b"no".to_vec()), Ok(Reply::ToDevice)));
    let message = OutgoingRequest::RoomMessage {
        room_id: "!r:h".to_owned(),
        event_type: "e".to_owned(),
        txn_id: "t".to_owned(),
        content: Json::Null,
    };
    let id = |body: &str| match reply_from(&message, &parse(body)) {
        Reply::RoomMessage { event_id } => event_id,
        other => panic!("unexpected {other:?}"),
    };
    assert_eq!(id("{\"event_id\":\"$abc\"}"), "$abc");
    assert_eq!(id("{\"event_id\":\"abc\"}"), "$placeholder:placeholder.invalid");
    assert_eq!(id("{}"), "$placeholder:placeholder.invalid");
    let upload = OutgoingRequest::KeysUpload {
        device_keys: Json::Null,
        one_time_keys: Json::Null,
        fallback_keys: Json::Null,
    };
    assert!(matches!(
        read_reply(&upload, &b"{\"one_time_key_counts\":{\"a\":1}}".to_vec()),
        Ok(Reply::KeysUpload { one_time_key_counts: Some(_) })
    ));
    let claim = OutgoingRequest::KeysClaim { one_time_keys: Json::Null };
    assert!(matches!(read_reply(&claim, &b"{}".to_vec()), Ok(Reply::KeysClaim { one_time_keys: None })));
}

#[test]
fn media_keys_travel_with_the_event() {
    let mut c = client();
    let mut store = PanStore::new(None);
    store.save_media(
        "test",
        &MediaInfo {
            mxc_server: "h".to_owned(),
            mxc_path: "id".to_owned(),
            key: parse("{\"k\":\"secret\"}"),
            iv: "IV".to_owned(),
            hashes: parse("{\"sha256\":\"H\"}"),
        },
    );
    let content = "{\"msgtype\":\"m.image\",\"url\":\"mxc://h/id\"}";
    let mut plain = parse(content);
    assert!(c.inject_media_keys(&store, "!r:h", &mut plain).is_ok());
    assert_eq!(plain.get_text("url"), Some("mxc://h/id"));
    c.mark_room_encrypted("!r:h");
    let mut sealed = parse(content);
    assert!(c.inject_media_keys(&store, "!r:h", &mut sealed).is_ok());
    assert!(sealed.get("url").is_none());
    let file = sealed.get("file").unwrap();
    assert_eq!(file.get_text("url"), Some("mxc://h/id"));
    assert_eq!(file.get_text("iv"), Some("IV"));
    assert_eq!(file.get_text("v"), Some("v2"));
    assert_eq!(file.get2("key", "k").unwrap().as_text(), Some("secret"));
    assert_eq!(file.get2("hashes", "sha256").unwrap().as_text(), Some("H"));
    assert_eq!(sealed.get_text("msgtype"), Some("m.image"));
    for other in ["{\"url\":\"mxc://h/other\"}", "{\"url\":\"https://h/id\"}", "{\"url\":\"mxc://h\"}", "[]"] {
        let mut content = parse(other);
        assert!(c.inject_media_keys(&store, "!r:h", &mut content).is_ok());
        assert_eq!(content.write(), parse(other).write());
    }
    store.restore_media("test", "h", "bad", "{", "IV", "{}");
    let mut bad = parse("{\"url\":\"mxc://h/bad\"}");
    assert!(matches!(c.inject_media_keys(&store, "!r:h", &mut bad), Err(StoreError::BadMediaKeys)));
    assert_eq!(split_mxc("mxc://mxc://h/a/b"), Some(("h", "a/b")));
    assert_eq!(split_mxc("mxc://h"), None);
}
