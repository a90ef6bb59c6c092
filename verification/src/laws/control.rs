//! Laws of the control interface and of the command line tool.

use vstd::prelude::*;
use crate::client::devices::{DeviceFacts, Trust};
use crate::client::PanClient;
use crate::dbus::{
    device_command, emit_signal, find_client, held_message_command, key_file_command, list_servers,
    list_users, recover_identity, DeviceCommand, Interface, KeyFileCommand, MessageIds, Signal,
};
use crate::messages::{DaemonToUi, UiToDaemon};
use crate::panctl::{
    print_devices, print_servers, print_taken, print_users, run, wait_response, wait_sas_show,
    After, Call, Cmd, Parties, Verdict,
};
use crate::proxy::daemon::ProxyDaemon;

verus! {

/// Whether a command of the user interface is about a device, under an identifier and for a
/// session, and of a kind.
pub open spec fn is_about(
    cmd: UiToDaemon,
    kind: DeviceCommand,
    id: Seq<char>,
    pan: Seq<char>,
    user: Seq<char>,
    device: Seq<char>,
) -> bool {
    match kind {
        DeviceCommand::StartSas => cmd matches UiToDaemon::StartSas {
            message_id,
            pan_user,
            user_id,
            device_id,
        } && message_id@ == id && pan_user@ == pan && user_id@ == user && device_id@ == device,
        DeviceCommand::AcceptSas => cmd matches UiToDaemon::AcceptSas {
            message_id,
            pan_user,
            user_id,
            device_id,
        } && message_id@ == id && pan_user@ == pan && user_id@ == user && device_id@ == device,
        DeviceCommand::ConfirmSas => cmd matches UiToDaemon::ConfirmSas {
            message_id,
            pan_user,
            user_id,
            device_id,
        } && message_id@ == id && pan_user@ == pan && user_id@ == user && device_id@ == device,
        DeviceCommand::CancelSas => cmd matches UiToDaemon::CancelSas {
            message_id,
            pan_user,
            user_id,
            device_id,
        } && message_id@ == id && pan_user@ == pan && user_id@ == user && device_id@ == device,
        DeviceCommand::VerifyDevice => cmd matches UiToDaemon::VerifyDevice {
            message_id,
            pan_user,
            user_id,
            device_id,
        } && message_id@ == id && pan_user@ == pan && user_id@ == user && device_id@ == device,
        DeviceCommand::UnverifyDevice => cmd matches UiToDaemon::UnverifyDevice {
            message_id,
            pan_user,
            user_id,
            device_id,
        } && message_id@ == id && pan_user@ == pan && user_id@ == user && device_id@ == device,
        DeviceCommand::BlacklistDevice => cmd matches UiToDaemon::BlacklistDevice {
            message_id,
            pan_user,
            user_id,
            device_id,
        } && message_id@ == id && pan_user@ == pan && user_id@ == user && device_id@ == device,
        DeviceCommand::UnblacklistDevice => cmd matches UiToDaemon::UnblacklistDevice {
            message_id,
            pan_user,
            user_id,
            device_id,
        } && message_id@ == id && pan_user@ == pan && user_id@ == user && device_id@ == device,
        DeviceCommand::ContinueKeyShare => cmd matches UiToDaemon::ContinueKeyShare {
            message_id,
            pan_user,
            user_id,
            device_id,
        } && message_id@ == id && pan_user@ == pan && user_id@ == user && device_id@ == device,
        DeviceCommand::CancelKeyShare => cmd matches UiToDaemon::CancelKeyShare {
            message_id,
            pan_user,
            user_id,
            device_id,
        } && message_id@ == id && pan_user@ == pan && user_id@ == user && device_id@ == device,
    }
}

/// A command about a device carries the session, the user and the device, each in its place,
/// under a new identifier, and is of the kind that was called.
pub proof fn commands_carry_their_device(
    ids: &mut MessageIds,
    kind: DeviceCommand,
    pan_user: String,
    user_id: String,
    device_id: String,
    r: (String, UiToDaemon),
    other: &mut MessageIds,
    id: String,
)
    requires
        call_ensures(device_command, (ids, kind, pan_user, user_id, device_id), r),
        call_ensures(MessageIds::next_id, (other,), id),
        old(other)@ == old(ids)@,
    ensures
        is_about(r.1, kind, r.0@, pan_user@, user_id@, device_id@),
        r.0@ == id@,
        final(ids)@ == final(other)@,
{
}

/// A command about a file with keys carries the session, the file and the passphrase, each in
/// its place, under a new identifier.
pub proof fn commands_carry_their_file(
    ids: &mut MessageIds,
    kind: KeyFileCommand,
    pan_user: String,
    file_path: String,
    passphrase: String,
    r: (String, UiToDaemon),
    other: &mut MessageIds,
    id: String,
)
    requires
        call_ensures(key_file_command, (ids, kind, pan_user, file_path, passphrase), r),
        call_ensures(MessageIds::next_id, (other,), id),
        old(other)@ == old(ids)@,
    ensures
        r.0@ == id@,
        final(ids)@ == final(other)@,
        kind == KeyFileCommand::ImportKeys ==> (r.1 matches UiToDaemon::ImportKeys {
            message_id: i,
            pan_user: u,
            file_path: f,
            passphrase: p,
        } && i@ == id@ && u@ == pan_user@ && f@ == file_path@ && p@ == passphrase@),
        kind == KeyFileCommand::ExportKeys ==> (r.1 matches UiToDaemon::ExportKeys {
            message_id: i,
            pan_user: u,
            file_path: f,
            passphrase: p,
        } && i@ == id@ && u@ == pan_user@ && f@ == file_path@ && p@ == passphrase@),
{
}

/// The command to restore an identity carries the session and the key, under a new identifier.
pub proof fn commands_carry_their_key(
    ids: &mut MessageIds,
    pan_user: String,
    key_input: String,
    r: (String, UiToDaemon),
    other: &mut MessageIds,
    id: String,
)
    requires
        call_ensures(recover_identity, (ids, pan_user, key_input), r),
        call_ensures(MessageIds::next_id, (other,), id),
        old(other)@ == old(ids)@,
    ensures
        r.0@ == id@,
        final(ids)@ == final(other)@,
        r.1 matches UiToDaemon::RecoverIdentity { message_id: i, pan_user: u, key_input: k } && i@
            == id@ && u@ == pan_user@ && k@ == key_input@,
{
}

/// The command about a message that is held up lets it go where that was called for, and gives
/// it up otherwise, with the identifier, the session and the room of the caller.
pub proof fn held_messages_are_decided(
    anyways: bool,
    pan_user: String,
    message_id: String,
    room_id: String,
    r: UiToDaemon,
)
    requires
        call_ensures(held_message_command, (anyways, pan_user, message_id, room_id), r),
    ensures
        anyways ==> (r matches UiToDaemon::SendAnyways { message_id: i, pan_user: u, room_id: room }
            && i@ == message_id@ && u@ == pan_user@ && room@ == room_id@),
        !anyways ==> (r matches UiToDaemon::CancelSending {
            message_id: i,
            pan_user: u,
            room_id: room,
        } && i@ == message_id@ && u@ == pan_user@ && room@ == room_id@),
{
}

/// Every command knows the session that it is meant for, and its identifier.
pub proof fn commands_know_their_caller(cmd: UiToDaemon, user: &str, id: &str)
    requires
        call_ensures(UiToDaemon::pan_user, (&cmd,), user),
        call_ensures(UiToDaemon::message_id, (&cmd,), id),
    ensures
        cmd matches UiToDaemon::SendAnyways { message_id, pan_user, .. } ==> user@ == pan_user@ && id@
            == message_id@,
        cmd matches UiToDaemon::CancelSending { message_id, pan_user, .. } ==> user@ == pan_user@ && id@
            == message_id@,
        cmd matches UiToDaemon::VerifyDevice { message_id, pan_user, .. } ==> user@ == pan_user@ && id@
            == message_id@,
        cmd matches UiToDaemon::UnverifyDevice { message_id, pan_user, .. } ==> user@ == pan_user@ && id@
            == message_id@,
        cmd matches UiToDaemon::BlacklistDevice { message_id, pan_user, .. } ==> user@ == pan_user@ && id@
            == message_id@,
        cmd matches UiToDaemon::UnblacklistDevice { message_id, pan_user, .. } ==> user@ == pan_user@ && id@
            == message_id@,
        cmd matches UiToDaemon::ImportKeys { message_id, pan_user, .. } ==> user@ == pan_user@ && id@
            == message_id@,
        cmd matches UiToDaemon::ExportKeys { message_id, pan_user, .. } ==> user@ == pan_user@ && id@
            == message_id@,
        cmd matches UiToDaemon::StartSas { message_id, pan_user, .. } ==> user@ == pan_user@ && id@
            == message_id@,
        cmd matches UiToDaemon::CancelSas { message_id, pan_user, .. } ==> user@ == pan_user@ && id@
            == message_id@,
        cmd matches UiToDaemon::ConfirmSas { message_id, pan_user, .. } ==> user@ == pan_user@ && id@
            == message_id@,
        cmd matches UiToDaemon::AcceptSas { message_id, pan_user, .. } ==> user@ == pan_user@ && id@
            == message_id@,
        cmd matches UiToDaemon::ContinueKeyShare { message_id, pan_user, .. } ==> user@ == pan_user@ && id@
            == message_id@,
        cmd matches UiToDaemon::CancelKeyShare { message_id, pan_user, .. } ==> user@ == pan_user@ && id@
            == message_id@,
        cmd matches UiToDaemon::RecoverIdentity { message_id, pan_user, .. } ==> user@ == pan_user@ && id@
            == message_id@,
{
}

/// The first identifier is one, and two identifiers in a row differ.
pub proof fn identifiers_differ(
    first: MessageIds,
    ids: &mut MessageIds,
    a: String,
    later: &mut MessageIds,
    b: String,
)
    requires
        call_ensures(MessageIds::new, (), first),
        call_ensures(MessageIds::next_id, (ids,), a),
        call_ensures(MessageIds::next_id, (later,), b),
        old(ids)@ < 0x1_0000_0000,
    ensures
        old(ids)@ == first@ ==> a@ == seq!['1'],
        old(later)@ == final(ids)@ ==> a@ != b@,
        old(ids)@ < 0xffff_ffff ==> final(ids)@ == old(ids)@ + 1,
        old(ids)@ == 0xffff_ffff ==> final(ids)@ == 0,
{
    if old(later)@ == final(ids)@ {
        crate::dbus::ids_differ(old(ids)@, old(later)@);
    }
}

/// A command goes to the first proxy with a session of its user, and to none where there is
/// no such session.
pub proof fn sessions_are_found(daemons: Vec<&ProxyDaemon>, user: &str, r: Option<usize>, j: int)
    requires
        call_ensures(find_client, (&daemons, user), r),
        0 <= j < daemons@.len(),
    ensures
        r is None ==> !daemons@[j]@.clients.contains_key(user@),
        r matches Some(i) ==> i < daemons@.len() && daemons@[i as int]@.clients.contains_key(user@),
        r matches Some(i) ==> (j < i ==> !daemons@[j]@.clients.contains_key(user@)),
{
}

/// The users with a session with one of the proxies are listed, each once, and no others; they
/// stand in the order of their names.
pub proof fn users_are_listed(
    daemons: Vec<&ProxyDaemon>,
    r: Vec<String>,
    user: Seq<char>,
    i: int,
    j: int,
)
    requires
        call_ensures(list_users, (&daemons,), r),
    ensures
        (exists|k: int| 0 <= k < r@.len() && (#[trigger] r@[k])@ == user) <==> exists|k: int|
            0 <= k < daemons@.len() && (#[trigger] daemons@[k])@.clients.contains_key(user),
        0 <= i < j < r@.len() ==> crate::text::before(r@[i]@, r@[j]@),
{
    assert(crate::text::listed(r@, user) == crate::dbus::logged_in(daemons@, user));
}

/// A text made longer by spaces up to a width.
pub open spec fn filled(s: Seq<char>, width: nat) -> Seq<char> {
    s + Seq::new(
        if s.len() < width {
            (width - s.len()) as nat
        } else {
            0
        },
        |i: int| ' ',
    )
}

/// The tool prints one line for each server that the daemon lists: its name, the address of
/// its homeserver, and where it listens.
pub proof fn servers_are_printed(
    daemons: Vec<&ProxyDaemon>,
    rows: Vec<Vec<(String, String)>>,
    lines: Vec<String>,
    i: int,
)
    requires
        call_ensures(list_servers, (&daemons,), rows),
        call_ensures(print_servers, (&rows,), lines),
    ensures
        daemons@.len() == 0 ==> lines@.len() == 1 && lines@[0]@ == "No servers configured."@,
        daemons@.len() > 0 ==> lines@.len() == daemons@.len(),
        0 <= i < daemons@.len() ==> {
            let s = daemons@[i]@.server;
            lines@[i]@ == s.name + ": "@ + s.homeserver + " \u{2192} "@ + s.listen_address + ":"@
                + crate::text::decimal(s.listen_port)
        },
{
    let views = crate::client::devices::row_views(rows@);
    let printed = crate::table::chars_of(lines@);
    assert(printed.len() == lines@.len());
    assert(views.len() == daemons@.len());
    if daemons@.len() == 0 {
        assert(printed[0] == lines@[0]@);
    }
    if 0 <= i < daemons@.len() {
        assert(printed[i] == lines@[i]@);
        assert(views[i] == crate::dbus::server_row(daemons@[i]@.server));
        crate::panctl::server_printed(daemons@[i]@.server);
    }
}

/// The tool prints the users that the daemon lists, one in a line.
pub proof fn users_are_printed(users: Vec<String>, lines: Vec<String>, i: int)
    requires
        call_ensures(print_users, (&users,), lines),
    ensures
        users@.len() == 0 ==> lines@.len() == 1 && lines@[0]@ == "No tracked users."@,
        users@.len() > 0 ==> lines@.len() == users@.len(),
        0 <= i < users@.len() ==> lines@[i]@ == users@[i]@,
{
    let printed = crate::table::chars_of(lines@);
    let listed = crate::table::chars_of(users@);
    assert(printed.len() == lines@.len());
    assert(listed.len() == users@.len());
    if users@.len() == 0 {
        assert(printed[0] == lines@[0]@);
    }
    if 0 <= i < users@.len() {
        assert(printed[i] == lines@[i]@);
        assert(listed[i] == users@[i]@);
    }
}

/// The word for how far a device is trusted.
pub open spec fn word_for(d: DeviceFacts) -> Seq<char> {
    match d.trust {
        Trust::Verified => "verified"@,
        Trust::BlackListed => "blacklisted"@,
        Trust::Ignored => "ignored"@,
        Trust::Unset => if d.cross_signed {
            "cross-signing-verified"@
        } else {
            "unset"@
        },
    }
}

/// The tool prints one line for each device that the daemon lists: its identifier, how far it
/// is trusted, and its name, in columns.
pub proof fn devices_are_printed(
    user: &str,
    devices: Vec<DeviceFacts>,
    rows: Vec<Vec<(String, String)>>,
    lines: Vec<String>,
    i: int,
)
    requires
        call_ensures(PanClient::list_user_devices, (user, &devices), rows),
        call_ensures(print_devices, (&rows,), lines),
        crate::ids::user_id_valid(user@),
    ensures
        devices@.len() == 0 ==> lines@.len() == 1 && lines@[0]@
            == "No devices found (user may not be tracked yet)."@,
        devices@.len() > 0 ==> lines@.len() == devices@.len(),
        0 <= i < devices@.len() ==> {
            let d = devices@[i];
            lines@[i]@ == filled(d.device_id@, 20) + " "@ + filled(word_for(d), 15) + " "@
                + match d.display_name {
                Some(n) => n@,
                None => ""@,
            }
        },
{
    let views = crate::client::devices::row_views(rows@);
    let facts = crate::client::devices::device_views(devices@);
    let printed = crate::table::chars_of(lines@);
    assert(printed.len() == lines@.len());
    assert(facts.len() == devices@.len());
    assert(views.len() == devices@.len());
    if devices@.len() == 0 {
        assert(printed[0] == lines@[0]@);
    }
    if 0 <= i < devices@.len() {
        let d = devices@[i];
        assert(printed[i] == lines@[i]@);
        assert(facts[i] == d@);
        assert(views[i] == crate::client::devices::device_row(d@));
        crate::panctl::device_printed(d@);
        lemma_filled(d.device_id@, 20);
        lemma_filled(word_for(d), 15);
        assert(crate::client::devices::trust_word(d@.trust, d@.cross_signed) == word_for(d));
    }
}

/// A text filled up to a width.
proof fn lemma_filled(s: Seq<char>, width: nat)
    ensures
        crate::panctl::padded(s, width) == filled(s, width),
{
    assert(crate::panctl::padded(s, width) =~= filled(s, width));
}

/// Whether the tool calls a method with some texts, and what it does afterwards.
pub open spec fn calls(
    r: Call,
    interface: Interface,
    method: Seq<char>,
    args: Seq<Seq<char>>,
    after: After,
) -> bool {
    &&& r.interface == interface
    &&& r.method@ == method
    &&& r.args@.len() == args.len()
    &&& forall|i: int| 0 <= i < args.len() ==> (#[trigger] r.args@[i])@ == args[i]
    &&& r.after == after
}

/// What a call means, part by part.
proof fn lemma_calls(r: Call)
    ensures
        calls(r, r@.interface, r@.method, r@.args, r@.after),
{
    assert(r@.args.len() == r.args@.len());
    assert forall|i: int| 0 <= i < r@.args.len() implies (#[trigger] r.args@[i])@ == r@.args[i] by {
        assert(r@.args[i] == r.args@[i]@);
    }
}

/// The tool lists what the daemon knows.
pub proof fn lists_are_called_for(cmd: Cmd, r: Call)
    requires
        call_ensures(run, (&cmd,), r),
    ensures
        cmd is ListServers ==> calls(
            r,
            Interface::Control,
            "ListServers"@,
            seq![],
            After::PrintServers,
        ),
        cmd is ListUsers ==> calls(r, Interface::Control, "ListUsers"@, seq![], After::PrintUsers),
        cmd matches Cmd::ListDevices { pan_user, user_id } ==> calls(
            r,
            Interface::Devices,
            "ListDevices"@,
            seq![pan_user@, user_id@],
            After::PrintDevices,
        ),
{
    lemma_calls(r);
}

/// The tool decides about a device for a session by the method of that name, and waits for the
/// answer.
pub proof fn decisions_about_devices_are_called_for(cmd: Cmd, r: Call)
    requires
        call_ensures(run, (&cmd,), r),
    ensures
        cmd matches Cmd::VerifyDevice { pan_user, user_id, device_id } ==> calls(
            r,
            Interface::Devices,
            "VerifyDevice"@,
            seq![pan_user@, user_id@, device_id@],
            After::AwaitResponse,
        ),
        cmd matches Cmd::UnverifyDevice { pan_user, user_id, device_id } ==> calls(
            r,
            Interface::Devices,
            "UnverifyDevice"@,
            seq![pan_user@, user_id@, device_id@],
            After::AwaitResponse,
        ),
        cmd matches Cmd::BlacklistDevice { pan_user, user_id, device_id } ==> calls(
            r,
            Interface::Devices,
            "BlacklistDevice"@,
            seq![pan_user@, user_id@, device_id@],
            After::AwaitResponse,
        ),
        cmd matches Cmd::UnblacklistDevice { pan_user, user_id, device_id } ==> calls(
            r,
            Interface::Devices,
            "UnblacklistDevice"@,
            seq![pan_user@, user_id@, device_id@],
            After::AwaitResponse,
        ),
{
    lemma_calls(r);
}

/// The tool runs verifications with a device for a session: it waits for the emoji where one is
/// started or accepted, and for the answer where one is confirmed or cancelled. Key shares are
/// decided in the same way.
pub proof fn verifications_are_called_for(cmd: Cmd, r: Call)
    requires
        call_ensures(run, (&cmd,), r),
    ensures
        cmd matches Cmd::StartVerification { pan_user, user_id, device_id } ==> calls(
            r,
            Interface::Control,
            "StartSas"@,
            seq![pan_user@, user_id@, device_id@],
            After::AwaitStarted,
        ),
        cmd matches Cmd::AcceptVerification { pan_user, user_id, device_id } ==> calls(
            r,
            Interface::Control,
            "AcceptSas"@,
            seq![pan_user@, user_id@, device_id@],
            After::AwaitAccepted,
        ),
        cmd matches Cmd::ConfirmVerification { pan_user, user_id, device_id } ==> calls(
            r,
            Interface::Control,
            "ConfirmSas"@,
            seq![pan_user@, user_id@, device_id@],
            After::AwaitResponse,
        ),
        cmd matches Cmd::CancelVerification { pan_user, user_id, device_id } ==> calls(
            r,
            Interface::Control,
            "CancelSas"@,
            seq![pan_user@, user_id@, device_id@],
            After::AwaitResponse,
        ),
        cmd matches Cmd::ContinueKeyshare { pan_user, user_id, device_id } ==> calls(
            r,
            Interface::Control,
            "ContinueKeyShare"@,
            seq![pan_user@, user_id@, device_id@],
            After::AwaitResponse,
        ),
        cmd matches Cmd::CancelKeyshare { pan_user, user_id, device_id } ==> calls(
            r,
            Interface::Control,
            "CancelKeyShare"@,
            seq![pan_user@, user_id@, device_id@],
            After::AwaitResponse,
        ),
{
    lemma_calls(r);
}

/// The tool hands over files with keys, decides about messages that are held up, and restores
/// identities.
pub proof fn keys_and_messages_are_called_for(cmd: Cmd, r: Call)
    requires
        call_ensures(run, (&cmd,), r),
    ensures
        cmd matches Cmd::ImportKeys { pan_user, file_path, passphrase } ==> calls(
            r,
            Interface::Control,
            "ImportKeys"@,
            seq![pan_user@, file_path@, passphrase@],
            After::AwaitResponse,
        ),
        cmd matches Cmd::ExportKeys { pan_user, file_path, passphrase } ==> calls(
            r,
            Interface::Control,
            "ExportKeys"@,
            seq![pan_user@, file_path@, passphrase@],
            After::AwaitResponse,
        ),
        cmd matches Cmd::SendAnyways { pan_user, room_id } ==> calls(
            r,
            Interface::Control,
            "SendAnyways"@,
            seq![pan_user@, "0"@, room_id@],
            After::SayAnyways,
        ),
        cmd matches Cmd::CancelSending { pan_user, room_id } ==> calls(
            r,
            Interface::Control,
            "CancelSending"@,
            seq![pan_user@, "0"@, room_id@],
            After::SayCancelled,
        ),
        cmd matches Cmd::RecoverIdentity { pan_user, key_input } ==> calls(
            r,
            Interface::Control,
            "RecoverIdentity"@,
            seq![pan_user@, key_input@],
            After::AwaitResponse,
        ),
{
    lemma_calls(r);
}

/// The tool says under which identifier a verification was asked for or accepted, and that a
/// message was decided about; it says nothing else.
pub proof fn taken_calls_are_told(after: After, id: &str, r: Vec<String>)
    requires
        call_ensures(print_taken, (after, id), r),
    ensures
        match after {
            After::AwaitStarted => r@.len() == 2 && r@[0]@
                == "SAS verification initiated (message_id="@ + id@ + ")"@ && r@[1]@
                == "Waiting for the remote device to accept..."@,
            After::AwaitAccepted => r@.len() == 1 && r@[0]@ == "SAS accept sent (message_id="@
                + id@ + ")"@,
            After::SayAnyways => r@.len() == 1 && r@[0]@ == "Send-anyways command dispatched."@,
            After::SayCancelled => r@.len() == 1 && r@[0]@
                == "Cancel-sending command dispatched."@,
            _ => r@.len() == 0,
        },
{
    let printed = crate::table::chars_of(r@);
    assert(printed.len() == r@.len());
    if r@.len() > 0 {
        assert(printed[0] == r@[0]@);
    }
    if r@.len() > 1 {
        assert(printed[1] == r@[1]@);
    }
}

/// The tool hears the answer that it waits for, and no other; it is a success where the code
/// says so, and the message is printed either way.
pub proof fn answers_are_heard(
    waiting_for: &str,
    id: &str,
    code: &str,
    message: &str,
    r: Option<Verdict>,
)
    requires
        call_ensures(wait_response, (waiting_for, id, code, message), r),
    ensures
        r is Some <==> id@ == waiting_for@,
        r matches Some(v) ==> {
            &&& v.success <==> code@ == "M_OK"@ || code@ == "ok"@
            &&& v.success ==> v.line@ == "OK: "@ + message@
            &&& !v.success ==> v.line@ == "Error ("@ + code@ + "): "@ + message@
        },
{
}

/// The tool prints the emoji of the verification that it waits for, one in a line, and how to
/// go on.
pub proof fn emoji_are_printed(
    waiting_for: Parties,
    heard: Parties,
    emoji: Vec<(String, String)>,
    r: Option<Vec<String>>,
    i: int,
)
    requires
        call_ensures(wait_sas_show, (&waiting_for, &heard, &emoji), r),
    ensures
        r is Some <==> waiting_for.pan_user@ == heard.pan_user@ && waiting_for.user_id@
            == heard.user_id@ && waiting_for.device_id@ == heard.device_id@,
        r matches Some(lines) ==> {
            let n = emoji@.len() as int;
            &&& lines@.len() == n + 5
            &&& lines@[0]@ == ""@
            &&& lines@[1]@ == "Verify that both devices show the same emoji:"@
            &&& lines@[2]@ == "--------------------------------------------------"@
            &&& 0 <= i < n ==> lines@[3 + i]@ == "  "@ + emoji@[i].0@ + "  "@ + emoji@[i].1@
            &&& lines@[3 + n]@ == "--------------------------------------------------"@
            &&& lines@[4 + n]@
                == "Run `panctl confirm-verification` if they match, or `panctl cancel-verification` to abort."@
        },
{
    if let Some(lines) = r {
        let n = emoji@.len() as int;
        let printed = crate::table::chars_of(lines@);
        let pairs = crate::messages::pair_views(emoji@);
        assert(printed.len() == lines@.len());
        assert(pairs.len() == n);
        assert(printed[0] == lines@[0]@);
        assert(printed[1] == lines@[1]@);
        assert(printed[2] == lines@[2]@);
        if 0 <= i < n {
            assert(printed[3 + i] == lines@[3 + i]@);
            assert(pairs[i] == (emoji@[i].0@, emoji@[i].1@));
        }
        assert(printed[3 + n] == lines@[3 + n]@);
        assert(printed[4 + n] == lines@[4 + n]@);
    }
}

/// Whether a signal has a name and some texts as its arguments, in their order.
pub open spec fn signals(
    r: Signal,
    interface: Interface,
    member: Seq<char>,
    texts: Seq<Seq<char>>,
) -> bool {
    &&& r.interface == interface
    &&& r.member@ == member
    &&& r.texts@.len() == texts.len()
    &&& forall|i: int| 0 <= i < texts.len() ==> (#[trigger] r.texts@[i])@ == texts[i]
}

/// What a signal means, part by part.
proof fn lemma_signals(r: Signal)
    ensures
        signals(r, r@.interface, r@.member, r@.texts),
        r@.emoji is Some <==> r.emoji is Some,
{
    assert(r@.texts.len() == r.texts@.len());
    assert forall|i: int| 0 <= i < r@.texts.len() implies (#[trigger] r.texts@[i])@
        == r@.texts[i] by {
        assert(r@.texts[i] == r.texts@[i]@);
    }
}

/// What the user interface is told goes out as a signal of that name, with every part in its
/// place; emoji go with the signal that shows them, and with no other.
pub proof fn messages_become_signals(m: DaemonToUi, r: Signal, i: int)
    requires
        call_ensures(emit_signal, (m,), r),
    ensures
        m matches DaemonToUi::UnverifiedDevices { pan_user, room_id, room_display_name } ==> signals(
            r,
            Interface::Control,
            "UnverifiedDevices"@,
            seq![pan_user@, room_id@, room_display_name@],
        ),
        m matches DaemonToUi::SasInvite { pan_user, user_id, device_id, transaction_id } ==> signals(
            r,
            Interface::Control,
            "SasInvite"@,
            seq![pan_user@, user_id@, device_id@, transaction_id@],
        ),
        m matches DaemonToUi::SasShow { pan_user, user_id, device_id, transaction_id, .. } ==> signals(
            r,
            Interface::Control,
            "SasShow"@,
            seq![pan_user@, user_id@, device_id@, transaction_id@],
        ),
        m matches DaemonToUi::SasDone { pan_user, user_id, device_id, transaction_id } ==> signals(
            r,
            Interface::Control,
            "SasDone"@,
            seq![pan_user@, user_id@, device_id@, transaction_id@],
        ),
        m matches DaemonToUi::Response { message_id, pan_user, code, message } ==> signals(
            r,
            Interface::Control,
            "Response"@,
            seq![message_id@, pan_user@, code@, message@],
        ),
        m matches DaemonToUi::UpdateUser { server, user_id, device_id } ==> signals(
            r,
            Interface::Control,
            "UpdateUser"@,
            seq![server@, user_id@, device_id@],
        ),
        m matches DaemonToUi::UpdateDevices { pan_user, devices } ==> {
            &&& r.interface == Interface::Devices
            &&& r.member@ == "UpdateDevices"@
            &&& r.texts@.len() == 2
            &&& r.texts@[0]@ == pan_user@
            &&& crate::json::reads_back(devices@) ==> crate::json::decoded(
                vstd::utf8::encode_utf8(r.texts@[1]@),
            ) == Some(devices@)
        },
        m matches DaemonToUi::KeyRequest { pan_user, event } ==> {
            &&& r.interface == Interface::Control
            &&& r.member@ == "KeyRequest"@
            &&& r.texts@.len() == 2
            &&& r.texts@[0]@ == pan_user@
            &&& crate::json::reads_back(event@) ==> crate::json::decoded(
                vstd::utf8::encode_utf8(r.texts@[1]@),
            ) == Some(event@)
        },
        r.emoji is Some <==> m is SasShow,
        m matches DaemonToUi::SasShow { emoji, .. } ==> {
            let shown = r.emoji.unwrap();
            &&& shown@.len() == emoji@.len()
            &&& 0 <= i < emoji@.len() ==> shown@[i].0@ == emoji@[i].0@ && shown@[i].1@
                == emoji@[i].1@
        },
{
    lemma_signals(r);
    if let DaemonToUi::SasShow { emoji, .. } = m {
        let shown = r.emoji.unwrap();
        let a = crate::messages::pair_views(shown@);
        let b = crate::messages::pair_views(emoji@);
        assert(a == b);
        assert(a.len() == shown@.len() && b.len() == emoji@.len());
        if 0 <= i < emoji@.len() {
            assert(a[i] == (shown@[i].0@, shown@[i].1@));
            assert(b[i] == (emoji@[i].0@, emoji@[i].1@));
        }
    }
    assert(r@.texts.len() == r.texts@.len());
    if r.texts@.len() == 2 {
        assert(r@.texts[0] == r.texts@[0]@);
        assert(r@.texts[1] == r.texts@[1]@);
    }
}

/// Each proxy is listed with its name, the address of its homeserver, and where it listens,
/// each under its own name.
pub proof fn servers_are_described(
    daemons: Vec<&ProxyDaemon>,
    rows: Vec<Vec<(String, String)>>,
    i: int,
)
    requires
        call_ensures(list_servers, (&daemons,), rows),
        0 <= i < daemons@.len(),
    ensures
        rows@.len() == daemons@.len(),
        rows@[i]@.len() == 4,
        crate::laws::commands::row_has(rows@[i]@, "name"@, daemons@[i]@.server.name),
        crate::laws::commands::row_has(rows@[i]@, "homeserver"@, daemons@[i]@.server.homeserver),
        crate::laws::commands::row_has(
            rows@[i]@,
            "listen_address"@,
            daemons@[i]@.server.listen_address,
        ),
        crate::laws::commands::row_has(
            rows@[i]@,
            "listen_port"@,
            crate::text::decimal(daemons@[i]@.server.listen_port),
        ),
{
    let views = crate::client::devices::row_views(rows@);
    assert(views.len() == rows@.len());
    assert(views[i] == crate::messages::pair_views(rows@[i]@));
    assert(views[i] == crate::dbus::server_row(daemons@[i]@.server));
    let row = rows@[i]@;
    let pairs = crate::messages::pair_views(row);
    assert(pairs.len() == row.len());
    assert(pairs[0] == (row[0].0@, row[0].1@));
    assert(pairs[1] == (row[1].0@, row[1].1@));
    assert(pairs[2] == (row[2].0@, row[2].1@));
    assert(pairs[3] == (row[3].0@, row[3].1@));
    assert(row[0].0@ == "name"@ && row[1].0@ == "homeserver"@ && row[2].0@ == "listen_address"@
        && row[3].0@ == "listen_port"@);
}

} // verus!
