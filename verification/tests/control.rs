//! The control interface and the command line tool.

use pantalaimon::client::commands::Outcome;
use pantalaimon::client::PanClient;
use pantalaimon::config::ServerConfig;
use pantalaimon::dbus::{
    device_command, emit_signal, find_client, held_message_command, key_file_command, list_servers,
    list_users, recover_identity, DeviceCommand, Interface, KeyFileCommand, MessageIds,
};
use pantalaimon::json::Json;
use pantalaimon::messages::{DaemonToUi, UiToDaemon};
use pantalaimon::panctl::{
    print_devices, print_servers, print_taken, print_users, run, wait_response, wait_sas_show, After,
    Cmd, Parties, SIGNAL_TIMEOUT_SECS,
};
use pantalaimon::proxy::daemon::ProxyDaemon;
use pantalaimon::store::ClientInfo;

fn s(text: &str) -> String {
    text.to_owned()
}

fn daemon(name: &str, port: u16, users: &[&str]) -> ProxyDaemon {
    let mut d = ProxyDaemon::new(ServerConfig {
        name: s(name),
        homeserver: format!("https://{name}.example/"),
        listen_address: s("127.0.0.1"),
        listen_port: port,
        proxy: None,
        ssl: true,
        ignore_verification: false,
        use_keyring: false,
        search_requests: false,
        index_encrypted_only: true,
        indexing_batch_size: 100,
        history_fetch_delay: 3000,
        drop_old_keys: false,
    });
    for user in users {
        d.register_client(&ClientInfo { user_id: s(user), access_token: format!("{name}-{user}") });
    }
    d
}

#[test]
fn identifiers_count_up() {
    let mut ids = MessageIds::new();
    assert_eq!(ids.next_id(), "1");
    assert_eq!(ids.next_id(), "2");
    let (id, cmd) = device_command(&mut ids, DeviceCommand::StartSas, s("@a:h"), s("@b:h"), s("B"));
    assert_eq!(id, "3");
    assert_eq!(cmd.message_id(), "3");
    assert_eq!(cmd.pan_user(), "@a:h");
    assert!(matches!(&cmd, UiToDaemon::StartSas { user_id, device_id, .. } if user_id == "@b:h" && device_id == "B"));
    let (id, cmd) = key_file_command(&mut ids, KeyFileCommand::ImportKeys, s("@a:h"), s("/f"), s("p"));
    assert_eq!((id.as_str(), cmd.message_id()), ("4", "4"));
    assert!(matches!(&cmd, UiToDaemon::ImportKeys { file_path, passphrase, .. } if file_path == "/f" && passphrase == "p"));
    let (id, cmd) = recover_identity(&mut ids, s("@a:h"), s("k"));
    assert_eq!((id.as_str(), cmd.message_id()), ("5", "5"));
    let cmd = held_message_command(true, s("@a:h"), s("0"), s("!r:h"));
    assert!(matches!(&cmd, UiToDaemon::SendAnyways { room_id, .. } if room_id == "!r:h"));
    let cmd = held_message_command(false, s("@a:h"), s("0"), s("!r:h"));
    assert_eq!((cmd.message_id(), cmd.pan_user()), ("0", "@a:h"));
}

#[test]
fn every_kind_of_command() {
    let mut ids = MessageIds::new();
    let kinds = [
        DeviceCommand::StartSas,
        DeviceCommand::AcceptSas,
        DeviceCommand::ConfirmSas,
        DeviceCommand::CancelSas,
        DeviceCommand::VerifyDevice,
        DeviceCommand::UnverifyDevice,
        DeviceCommand::BlacklistDevice,
        DeviceCommand::UnblacklistDevice,
        DeviceCommand::ContinueKeyShare,
        DeviceCommand::CancelKeyShare,
    ];
    let mut names: Vec<String> = Vec::new();
    for kind in kinds {
        let (_, cmd) = device_command(&mut ids, kind, s("u"), s("v"), s("w"));
        let name = format!("{cmd:?}");
        names.push(name.split(' ').next().unwrap().to_owned());
        assert_eq!(cmd.pan_user(), "u");
    }
    let wanted: Vec<String> = kinds.iter().map(|k| format!("{k:?}")).collect();
    assert_eq!(names, wanted);
}

#[test]
fn users_and_servers_are_listed() {
    let a = daemon("a", 8009, &["@z:h", "@b:h"]);
    let b = daemon("b", 8010, &["@b:h", "@a:h"]);
    let all = vec![&a, &b];
    assert_eq!(list_users(&all), vec!["@a:h", "@b:h", "@z:h"]);
    assert_eq!(find_client(&all, "@a:h"), Some(1));
    assert_eq!(find_client(&all, "@b:h"), Some(0));
    assert_eq!(find_client(&all, "@q:h"), None);
    let rows = list_servers(&all);
    assert_eq!(rows[1][3], (s("listen_port"), s("8010")));
    assert_eq!(
        print_servers(&rows),
        vec!["a: https://a.example/ → 127.0.0.1:8009", "b: https://b.example/ → 127.0.0.1:8010"]
    );
    assert_eq!(print_users(&list_users(&all)), vec!["@a:h", "@b:h", "@z:h"]);
}

#[test]
fn signals_carry_their_arguments() {
    let signal = emit_signal(DaemonToUi::Response {
        message_id: s("1"),
        pan_user: s("@a:h"),
        code: s("M_OK"),
        message: s("fine"),
    });
    assert_eq!(signal.interface, Interface::Control);
    assert_eq!(signal.member, "Response");
    assert_eq!(signal.texts, vec!["1", "@a:h", "M_OK", "fine"]);
    assert!(signal.emoji.is_none());
    let signal = emit_signal(DaemonToUi::SasShow {
        pan_user: s("@a:h"),
        user_id: s("@b:h"),
        device_id: s("B"),
        transaction_id: s("t"),
        emoji: vec![(s("🐶"), s("Dog"))],
    });
    assert_eq!(signal.member, "SasShow");
    assert_eq!(signal.texts, vec!["@a:h", "@b:h", "B", "t"]);
    assert_eq!(signal.emoji, Some(vec![(s("🐶"), s("Dog"))]));
    let signal = emit_signal(DaemonToUi::UpdateDevices {
        pan_user: s("@a:h"),
        devices: Json::parse(b"{ \"a\" : [ 1 ] }").unwrap(),
    });
    assert_eq!(signal.interface, Interface::Devices);
    assert_eq!(signal.texts, vec!["@a:h", "{\"a\":[1]}"]);
    let others = [
        (DaemonToUi::UnverifiedDevices { pan_user: s("u"), room_id: s("r"), room_display_name: s("n") }, "UnverifiedDevices"),
        (
            DaemonToUi::SasInvite { pan_user: s("u"), user_id: s("v"), device_id: s("d"), transaction_id: s("t") },
            "SasInvite",
        ),
        (
            DaemonToUi::SasDone { pan_user: s("u"), user_id: s("v"), device_id: s("d"), transaction_id: s("t") },
            "SasDone",
        ),
        (DaemonToUi::UpdateUser { server: s("x"), user_id: s("v"), device_id: s("d") }, "UpdateUser"),
    ];
    for (message, member) in others {
        assert_eq!(emit_signal(message).member, member);
    }
    let event = Json::parse(br#"{"sender":"@b:h","type":"m.room_key_request"}"#).unwrap();
    let signal = emit_signal(DaemonToUi::KeyRequest { pan_user: s("@a:h"), event });
    assert_eq!((signal.interface, signal.member.as_str()), (Interface::Control, "KeyRequest"));
    assert_eq!(signal.texts, vec![
        s("@a:h"),
        s(r#"{"sender":"@b:h","type":"m.room_key_request"}"#),
    ]);
}

#[test]
fn commands_become_calls() {
    let call = run(&Cmd::VerifyDevice { pan_user: s("u"), user_id: s("v"), device_id: s("d") });
    assert_eq!(call.interface, Interface::Devices);
    assert_eq!(call.method, "VerifyDevice");
    assert_eq!(call.args, vec!["u", "v", "d"]);
    assert_eq!(call.after, After::AwaitResponse);
    let call = run(&Cmd::StartVerification { pan_user: s("u"), user_id: s("v"), device_id: s("d") });
    assert_eq!((call.interface, call.method.as_str(), call.after), (Interface::Control, "StartSas", After::AwaitStarted));
    let call = run(&Cmd::AcceptVerification { pan_user: s("u"), user_id: s("v"), device_id: s("d") });
    assert_eq!((call.method.as_str(), call.after), ("AcceptSas", After::AwaitAccepted));
    let call = run(&Cmd::SendAnyways { pan_user: s("u"), room_id: s("r") });
    assert_eq!((call.method.as_str(), call.args, call.after), ("SendAnyways", vec![s("u"), s("0"), s("r")], After::SayAnyways));
    let call = run(&Cmd::CancelSending { pan_user: s("u"), room_id: s("r") });
    assert_eq!((call.method.as_str(), call.after), ("CancelSending", After::SayCancelled));
    let call = run(&Cmd::RecoverIdentity { pan_user: s("u"), key_input: s("k") });
    assert_eq!((call.method.as_str(), call.args), ("RecoverIdentity", vec![s("u"), s("k")]));
    let call = run(&Cmd::ExportKeys { pan_user: s("u"), file_path: s("f"), passphrase: s("p") });
    assert_eq!((call.method.as_str(), call.args), ("ExportKeys", vec![s("u"), s("f"), s("p")]));
    let call = run(&Cmd::ContinueKeyshare { pan_user: s("u"), user_id: s("v"), device_id: s("d") });
    assert_eq!((call.interface, call.method.as_str()), (Interface::Control, "ContinueKeyShare"));
    assert_eq!(run(&Cmd::ListServers).after, After::PrintServers);
    assert_eq!(run(&Cmd::ListUsers).method, "ListUsers");
    let call = run(&Cmd::ListDevices { pan_user: s("u"), user_id: s("v") });
    assert_eq!((call.interface, call.args, call.after), (Interface::Devices, vec![s("u"), s("v")], After::PrintDevices));
    assert_eq!(SIGNAL_TIMEOUT_SECS, 30);
}

#[test]
fn lines_are_printed() {
    assert_eq!(print_servers(&vec![]), vec!["No servers configured."]);
    assert_eq!(print_servers(&vec![vec![(s("name"), s("x"))]]), vec!["x: ? → ?:?"]);
    assert_eq!(print_users(&vec![]), vec!["No tracked users."]);
    assert_eq!(print_devices(&vec![]), vec!["No devices found (user may not be tracked yet)."]);
    let row = |id: &str, trust: &str, name: &str| {
        vec![(s("device_id"), s(id)), (s("trust_state"), s(trust)), (s("device_display_name"), s(name))]
    };
    let lines = print_devices(&vec![
        row("DEV", "verified", "phone"),
        row("éé", "cross-signing-verified", ""),
        vec![],
    ]);
    assert_eq!(lines[0], format!("{:<20} {:<15} {}", "DEV", "verified", "phone"));
    assert_eq!(lines[1], format!("{:<20} {:<15} {}", "éé", "cross-signing-verified", ""));
    assert_eq!(lines[2], format!("{:<20} {:<15} {}", "?", "?", ""));
    assert_eq!(
        print_taken(After::AwaitStarted, "5"),
        vec!["SAS verification initiated (message_id=5)", "Waiting for the remote device to accept..."]
    );
    assert_eq!(print_taken(After::AwaitAccepted, "5"), vec!["SAS accept sent (message_id=5)"]);
    assert_eq!(print_taken(After::SayAnyways, ""), vec!["Send-anyways command dispatched."]);
    assert_eq!(print_taken(After::SayCancelled, ""), vec!["Cancel-sending command dispatched."]);
    assert!(print_taken(After::AwaitResponse, "5").is_empty());
}

#[test]
fn answers_are_waited_for() {
    assert!(wait_response("5", "6", "M_OK", "fine").is_none());
    let v = wait_response("5", "5", "M_OK", "fine").unwrap();
    assert!(v.success);
    assert_eq!(v.line, "OK: fine");
    assert!(wait_response("5", "5", "ok", "fine").unwrap().success);
    let v = wait_response("5", "5", "M_UNKNOWN", "bad").unwrap();
    assert!(!v.success);
    assert_eq!(v.line, "Error (M_UNKNOWN): bad");

    let client = PanClient::new(
        s("@a:h"),
        s("D"),
        s("t"),
        daemon("a", 1, &[]).config().copy(),
    )
    .unwrap();
    let (id, cmd) = device_command(&mut MessageIds::new(), DeviceCommand::VerifyDevice, s("@a:h"), s("@b:h"), s("B"));
    for (outcome, success) in [(Outcome::Done, true), (Outcome::NoDevice, false)] {
        let signal = emit_signal(client.command_done(&cmd, &outcome));
        let v = wait_response(&id, &signal.texts[0], &signal.texts[2], &signal.texts[3]).unwrap();
        assert_eq!(v.success, success);
    }
}

#[test]
fn emoji_are_shown_to_the_right_parties() {
    let parties = |u: &str, v: &str, d: &str| Parties { pan_user: s(u), user_id: s(v), device_id: s(d) };
    let emoji = vec![(s("🐶"), s("Dog")), (s("🐱"), s("Cat"))];
    let lines = wait_sas_show(&parties("u", "v", "d"), &parties("u", "v", "d"), &emoji).unwrap();
    assert_eq!(
        lines,
        vec![
            s(""),
            s("Verify that both devices show the same emoji:"),
            "-".repeat(50),
            s("  🐶  Dog"),
            s("  🐱  Cat"),
            "-".repeat(50),
            s("Run `panctl confirm-verification` if they match, or `panctl cancel-verification` to abort."),
        ]
    );
    for other in [parties("x", "v", "d"), parties("u", "x", "d"), parties("u", "v", "x")] {
        assert!(wait_sas_show(&parties("u", "v", "d"), &other, &emoji).is_none());
    }
}
