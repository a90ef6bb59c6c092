//! The command line tool: which call a command becomes, and what is printed of the answer.

use vstd::prelude::*;
use crate::dbus::Interface;
use crate::text::same;

verus! {

/// How long an answer is waited for, in seconds.
pub const SIGNAL_TIMEOUT_SECS: u64 = 30;

/// A command line.
#[derive(Debug)]
pub enum Cmd {
    ListServers,
    ListUsers,
    ListDevices { pan_user: String, user_id: String },
    VerifyDevice { pan_user: String, user_id: String, device_id: String },
    UnverifyDevice { pan_user: String, user_id: String, device_id: String },
    BlacklistDevice { pan_user: String, user_id: String, device_id: String },
    UnblacklistDevice { pan_user: String, user_id: String, device_id: String },
    StartVerification { pan_user: String, user_id: String, device_id: String },
    AcceptVerification { pan_user: String, user_id: String, device_id: String },
    ConfirmVerification { pan_user: String, user_id: String, device_id: String },
    CancelVerification { pan_user: String, user_id: String, device_id: String },
    ImportKeys { pan_user: String, file_path: String, passphrase: String },
    ExportKeys { pan_user: String, file_path: String, passphrase: String },
    SendAnyways { pan_user: String, room_id: String },
    CancelSending { pan_user: String, room_id: String },
    ContinueKeyshare { pan_user: String, user_id: String, device_id: String },
    CancelKeyshare { pan_user: String, user_id: String, device_id: String },
    RecoverIdentity { pan_user: String, key_input: String },
}

/// What is done once the daemon has taken a call.
#[derive(Debug, Clone, Copy, PartialEq, Eq, Structural)]
pub enum After {
    /// Print the servers that were returned.
    PrintServers,
    /// Print the users that were returned.
    PrintUsers,
    /// Print the devices that were returned.
    PrintDevices,
    /// Wait for the answer under the identifier that was returned.
    AwaitResponse,
    /// Say that a verification was asked for, and wait for its emoji.
    AwaitStarted,
    /// Say that a verification was accepted, and wait for its emoji.
    AwaitAccepted,
    /// Say that a message may leave.
    SayAnyways,
    /// Say that a message is given up.
    SayCancelled,
}

/// A call of the daemon, and what is done afterwards.
#[derive(Debug)]
pub struct Call {
    pub interface: Interface,
    pub method: String,
    pub args: Vec<String>,
    pub after: After,
}

/// What a call means.
#[verifier::ext_equal]
pub struct CallView {
    pub interface: Interface,
    pub method: Seq<char>,
    pub args: Seq<Seq<char>>,
    pub after: After,
}

impl View for Call {
    type V = CallView;

    open spec fn view(&self) -> CallView {
        CallView {
            interface: self.interface,
            method: self.method@,
            args: crate::table::chars_of(self.args@),
            after: self.after,
        }
    }
}

/// A call of the control interface.
pub open spec fn control_call(method: Seq<char>, args: Seq<Seq<char>>, after: After) -> CallView {
    CallView { interface: Interface::Control, method, args, after }
}

/// A call of the devices interface.
pub open spec fn devices_call(method: Seq<char>, args: Seq<Seq<char>>, after: After) -> CallView {
    CallView { interface: Interface::Devices, method, args, after }
}

/// The call that a command becomes.
pub open spec fn call_for(cmd: Cmd) -> CallView {
    match cmd {
        Cmd::ListServers => control_call("ListServers"@, Seq::empty(), After::PrintServers),
        Cmd::ListUsers => control_call("ListUsers"@, Seq::empty(), After::PrintUsers),
        Cmd::ListDevices { pan_user, user_id } => devices_call(
            "ListDevices"@,
            seq![pan_user@, user_id@],
            After::PrintDevices,
        ),
        Cmd::VerifyDevice { pan_user, user_id, device_id } => devices_call(
            "VerifyDevice"@,
            seq![pan_user@, user_id@, device_id@],
            After::AwaitResponse,
        ),
        Cmd::UnverifyDevice { pan_user, user_id, device_id } => devices_call(
            "UnverifyDevice"@,
            seq![pan_user@, user_id@, device_id@],
            After::AwaitResponse,
        ),
        Cmd::BlacklistDevice { pan_user, user_id, device_id } => devices_call(
            "BlacklistDevice"@,
            seq![pan_user@, user_id@, device_id@],
            After::AwaitResponse,
        ),
        Cmd::UnblacklistDevice { pan_user, user_id, device_id } => devices_call(
            "UnblacklistDevice"@,
            seq![pan_user@, user_id@, device_id@],
            After::AwaitResponse,
        ),
        Cmd::StartVerification { pan_user, user_id, device_id } => control_call(
            "StartSas"@,
            seq![pan_user@, user_id@, device_id@],
            After::AwaitStarted,
        ),
        Cmd::AcceptVerification { pan_user, user_id, device_id } => control_call(
            "AcceptSas"@,
            seq![pan_user@, user_id@, device_id@],
            After::AwaitAccepted,
        ),
        Cmd::ConfirmVerification { pan_user, user_id, device_id } => control_call(
            "ConfirmSas"@,
            seq![pan_user@, user_id@, device_id@],
            After::AwaitResponse,
        ),
        Cmd::CancelVerification { pan_user, user_id, device_id } => control_call(
            "CancelSas"@,
            seq![pan_user@, user_id@, device_id@],
            After::AwaitResponse,
        ),
        Cmd::ImportKeys { pan_user, file_path, passphrase } => control_call(
            "ImportKeys"@,
            seq![pan_user@, file_path@, passphrase@],
            After::AwaitResponse,
        ),
        Cmd::ExportKeys { pan_user, file_path, passphrase } => control_call(
            "ExportKeys"@,
            seq![pan_user@, file_path@, passphrase@],
            After::AwaitResponse,
        ),
        Cmd::SendAnyways { pan_user, room_id } => control_call(
            "SendAnyways"@,
            seq![pan_user@, "0"@, room_id@],
            After::SayAnyways,
        ),
        Cmd::CancelSending { pan_user, room_id } => control_call(
            "CancelSending"@,
            seq![pan_user@, "0"@, room_id@],
            After::SayCancelled,
        ),
        Cmd::ContinueKeyshare { pan_user, user_id, device_id } => control_call(
            "ContinueKeyShare"@,
            seq![pan_user@, user_id@, device_id@],
            After::AwaitResponse,
        ),
        Cmd::CancelKeyshare { pan_user, user_id, device_id } => control_call(
            "CancelKeyShare"@,
            seq![pan_user@, user_id@, device_id@],
            After::AwaitResponse,
        ),
        Cmd::RecoverIdentity { pan_user, key_input } => control_call(
            "RecoverIdentity"@,
            seq![pan_user@, key_input@],
            After::AwaitResponse,
        ),
    }
}

/// A call with no arguments.
fn call0(interface: Interface, method: &str, after: After) -> (r: Call)
    ensures
        r@ == (CallView { interface, method: method@, args: Seq::empty(), after }),
{
    let r = Call { interface, method: method.to_owned(), args: Vec::new(), after };
    assert(r@.args =~= Seq::empty());
    r
}

/// A call with two arguments.
fn call2(interface: Interface, method: &str, a: &str, b: &str, after: After) -> (r: Call)
    ensures
        r@ == (CallView { interface, method: method@, args: seq![a@, b@], after }),
{
    let mut args: Vec<String> = Vec::new();
    args.push(a.to_owned());
    args.push(b.to_owned());
    let r = Call { interface, method: method.to_owned(), args, after };
    assert(r@.args =~= seq![a@, b@]);
    r
}

/// A call with three arguments.
fn call3(interface: Interface, method: &str, a: &str, b: &str, c: &str, after: After) -> (r: Call)
    ensures
        r@ == (CallView { interface, method: method@, args: seq![a@, b@, c@], after }),
{
    let mut args: Vec<String> = Vec::new();
    args.push(a.to_owned());
    args.push(b.to_owned());
    args.push(c.to_owned());
    let r = Call { interface, method: method.to_owned(), args, after };
    assert(r@.args =~= seq![a@, b@, c@]);
    r
}

/// A call of the devices interface about a device.
fn about_device(method: &str, pan_user: &String, user_id: &String, device_id: &String) -> (r: Call)
    ensures
        r@ == devices_call(
            method@,
            seq![pan_user@, user_id@, device_id@],
            After::AwaitResponse,
        ),
{
    call3(
        Interface::Devices,
        method,
        pan_user.as_str(),
        user_id.as_str(),
        device_id.as_str(),
        After::AwaitResponse,
    )
}

/// A call of the control interface with three arguments.
fn control3(method: &str, a: &String, b: &String, c: &String, after: After) -> (r: Call)
    ensures
        r@ == control_call(method@, seq![a@, b@, c@], after),
{
    call3(Interface::Control, method, a.as_str(), b.as_str(), c.as_str(), after)
}

/// The call that a command becomes.
pub fn run(cmd: &Cmd) -> (r: Call)
    ensures
        r@ == call_for(*cmd),
{
    match cmd {
        Cmd::ListServers => call0(Interface::Control, "ListServers", After::PrintServers),
        Cmd::ListUsers => call0(Interface::Control, "ListUsers", After::PrintUsers),
        Cmd::ListDevices { pan_user, user_id } => call2(
            Interface::Devices,
            "ListDevices",
            pan_user.as_str(),
            user_id.as_str(),
            After::PrintDevices,
        ),
        Cmd::VerifyDevice { pan_user, user_id, device_id } => {
            about_device("VerifyDevice", pan_user, user_id, device_id)
        },
        Cmd::UnverifyDevice { pan_user, user_id, device_id } => {
            about_device("UnverifyDevice", pan_user, user_id, device_id)
        },
        Cmd::BlacklistDevice { pan_user, user_id, device_id } => {
            about_device("BlacklistDevice", pan_user, user_id, device_id)
        },
        Cmd::UnblacklistDevice { pan_user, user_id, device_id } => {
            about_device("UnblacklistDevice", pan_user, user_id, device_id)
        },
        Cmd::StartVerification { pan_user, user_id, device_id } => {
            control3("StartSas", pan_user, user_id, device_id, After::AwaitStarted)
        },
        Cmd::AcceptVerification { pan_user, user_id, device_id } => {
            control3("AcceptSas", pan_user, user_id, device_id, After::AwaitAccepted)
        },
        Cmd::ConfirmVerification { pan_user, user_id, device_id } => {
            control3("ConfirmSas", pan_user, user_id, device_id, After::AwaitResponse)
        },
        Cmd::CancelVerification { pan_user, user_id, device_id } => {
            control3("CancelSas", pan_user, user_id, device_id, After::AwaitResponse)
        },
        Cmd::ImportKeys { pan_user, file_path, passphrase } => {
            control3("ImportKeys", pan_user, file_path, passphrase, After::AwaitResponse)
        },
        Cmd::ExportKeys { pan_user, file_path, passphrase } => {
            control3("ExportKeys", pan_user, file_path, passphrase, After::AwaitResponse)
        },
        Cmd::SendAnyways { pan_user, room_id } => call3(
            Interface::Control,
            "SendAnyways",
            pan_user.as_str(),
            "0",
            room_id.as_str(),
            After::SayAnyways,
        ),
        Cmd::CancelSending { pan_user, room_id } => call3(
            Interface::Control,
            "CancelSending",
            pan_user.as_str(),
            "0",
            room_id.as_str(),
            After::SayCancelled,
        ),
        Cmd::ContinueKeyshare { pan_user, user_id, device_id } => {
            control3("ContinueKeyShare", pan_user, user_id, device_id, After::AwaitResponse)
        },
        Cmd::CancelKeyshare { pan_user, user_id, device_id } => {
            control3("CancelKeyShare", pan_user, user_id, device_id, After::AwaitResponse)
        },
        Cmd::RecoverIdentity { pan_user, key_input } => call2(
            Interface::Control,
            "RecoverIdentity",
            pan_user.as_str(),
            key_input.as_str(),
            After::AwaitResponse,
        ),
    }
}

/// The value under a key of a row, or another text where there is none.
pub open spec fn value_or(
    row: Seq<(Seq<char>, Seq<char>)>,
    key: Seq<char>,
    default: Seq<char>,
) -> Seq<char>
    decreases row.len(),
{
    if row.len() == 0 {
        default
    } else if row[0].0 == key {
        row[0].1
    } else {
        value_or(row.drop_first(), key, default)
    }
}

/// The value under a key of a row, or another text where there is none.
fn find_value(row: &Vec<(String, String)>, key: &str, default: &str) -> (r: String)
    ensures
        r@ == value_or(crate::messages::pair_views(row@), key@, default@),
{
    let ghost all = crate::messages::pair_views(row@);
    let mut i: usize = 0;
    assert(all.skip(0) == all);
    while i < row.len()
        invariant
            i <= row@.len(),
            all == crate::messages::pair_views(row@),
            value_or(all.skip(i as int), key@, default@) == value_or(all, key@, default@),
        decreases row@.len() - i,
    {
        assert(all.skip(i as int)[0] == (row@[i as int].0@, row@[i as int].1@));
        assert(all.skip(i as int).drop_first() == all.skip(i + 1));
        if same(row[i].0.as_str(), key) {
            return row[i].1.clone();
        }
        i = i + 1;
    }
    assert(all.skip(i as int).len() == 0);
    default.to_owned()
}

/// The line for a server.
pub open spec fn server_text(row: Seq<(Seq<char>, Seq<char>)>) -> Seq<char> {
    value_or(row, "name"@, "?"@) + ": "@ + value_or(row, "homeserver"@, "?"@) + " \u{2192} "@
        + value_or(row, "listen_address"@, "?"@) + ":"@ + value_or(row, "listen_port"@, "?"@)
}

/// The line for a server.
fn server_line(row: &Vec<(String, String)>) -> (r: String)
    ensures
        r@ == server_text(crate::messages::pair_views(row@)),
{
    let name = find_value(row, "name", "?");
    let homeserver = find_value(row, "homeserver", "?");
    let address = find_value(row, "listen_address", "?");
    let port = find_value(row, "listen_port", "?");
    name.concat(": ").concat(homeserver.as_str()).concat(" \u{2192} ").concat(
        address.as_str(),
    ).concat(":").concat(port.as_str())
}

/// `n` spaces.
pub open spec fn spaces(n: nat) -> Seq<char> {
    Seq::new(n, |i: int| ' ')
}

/// A text made at least `width` characters long by spaces at its end.
pub open spec fn padded(s: Seq<char>, width: nat) -> Seq<char> {
    if s.len() < width {
        s + spaces((width - s.len()) as nat)
    } else {
        s
    }
}

/// A text made at least `width` characters long by spaces at its end.
fn pad(s: String, width: usize) -> (r: String)
    ensures
        r@ == padded(s@, width as nat),
{
    let len = s.as_str().unicode_len();
    let ghost text = s@;
    let mut out = s;
    let mut n: usize = len;
    proof {
        reveal_strlit(" ");
    }
    assert(out@ =~= text + spaces(0));
    while n < width
        invariant
            len == text.len(),
            len <= n,
            n <= width || n == len,
            out@ == text + spaces((n - len) as nat),
            " "@.len() == 1,
            " "@[0] == ' ',
        decreases width - n,
    {
        out = out.concat(" ");
        assert(out@ =~= text + spaces((n + 1 - len) as nat));
        n = n + 1;
    }
    if len >= width {
        assert(text + spaces(0) =~= text);
    }
    out
}

/// The line for a device.
pub open spec fn device_text(row: Seq<(Seq<char>, Seq<char>)>) -> Seq<char> {
    padded(value_or(row, "device_id"@, "?"@), 20) + " "@ + padded(
        value_or(row, "trust_state"@, "?"@),
        15,
    ) + " "@ + value_or(row, "device_display_name"@, ""@)
}

/// The line for a device.
fn device_line(row: &Vec<(String, String)>) -> (r: String)
    ensures
        r@ == device_text(crate::messages::pair_views(row@)),
{
    let device = pad(find_value(row, "device_id", "?"), 20);
    let trust = pad(find_value(row, "trust_state", "?"), 15);
    let name = find_value(row, "device_display_name", "");
    device.concat(" ").concat(trust.as_str()).concat(" ").concat(name.as_str())
}

/// What the daemon tells of a server is printed in full: no part of the line is missing.
pub proof fn server_printed(s: crate::config::ServerView)
    ensures
        server_text(crate::dbus::server_row(s)) == s.name + ": "@ + s.homeserver + " \u{2192} "@
            + s.listen_address + ":"@ + crate::text::decimal(s.listen_port),
{
    reveal_strlit("name");
    reveal_strlit("homeserver");
    reveal_strlit("listen_address");
    reveal_strlit("listen_port");
    assert("name"@.len() == 4 && "homeserver"@.len() == 10 && "listen_address"@.len() == 14
        && "listen_port"@.len() == 11);
    let row = crate::dbus::server_row(s);
    assert(row.drop_first().drop_first().drop_first().drop_first().len() == 0);
    reveal_with_fuel(value_or, 5);
}

/// What the daemon tells of a device is printed: its identifier, how far it is trusted, and
/// its name.
pub proof fn device_printed(d: crate::client::devices::DeviceView)
    ensures
        device_text(crate::client::devices::device_row(d)) == padded(d.device_id, 20) + " "@
            + padded(crate::client::devices::trust_word(d.trust, d.cross_signed), 15) + " "@
            + crate::client::devices::or_empty(d.display_name),
{
    reveal_strlit("user_id");
    reveal_strlit("device_id");
    reveal_strlit("device_display_name");
    reveal_strlit("ed25519");
    reveal_strlit("trust_state");
    assert("user_id"@.len() == 7 && "device_id"@.len() == 9 && "device_display_name"@.len() == 19
        && "ed25519"@.len() == 7 && "trust_state"@.len() == 11);
    reveal_with_fuel(value_or, 6);
}

/// What is printed of the servers.
pub open spec fn servers_printed(rows: Seq<Seq<(Seq<char>, Seq<char>)>>) -> Seq<Seq<char>> {
    if rows.len() == 0 {
        seq!["No servers configured."@]
    } else {
        rows.map_values(|r: Seq<(Seq<char>, Seq<char>)>| server_text(r))
    }
}

/// What is printed of the servers.
pub fn print_servers(rows: &Vec<Vec<(String, String)>>) -> (r: Vec<String>)
    ensures
        crate::table::chars_of(r@) == servers_printed(crate::client::devices::row_views(rows@)),
{
    let mut lines: Vec<String> = Vec::new();
    let ghost all = crate::client::devices::row_views(rows@);
    assert(all.len() == rows@.len());
    if rows.len() == 0 {
        lines.push("No servers configured.".to_owned());
        assert(crate::table::chars_of(lines@) =~= servers_printed(all));
        return lines;
    }
    let mut i: usize = 0;
    while i < rows.len()
        invariant
            i <= rows@.len(),
            all == crate::client::devices::row_views(rows@),
            lines@.len() == i,
            forall|j: int| 0 <= j < i ==> (#[trigger] lines@[j])@ == server_text(all[j]),
        decreases rows@.len() - i,
    {
        assert(all[i as int] == crate::messages::pair_views(rows@[i as int]@));
        lines.push(server_line(&rows[i]));
        i = i + 1;
    }
    assert(crate::table::chars_of(lines@) =~= servers_printed(all));
    lines
}

/// What is printed of the users.
pub open spec fn users_printed(users: Seq<Seq<char>>) -> Seq<Seq<char>> {
    if users.len() == 0 {
        seq!["No tracked users."@]
    } else {
        users
    }
}

/// What is printed of the users.
pub fn print_users(users: &Vec<String>) -> (r: Vec<String>)
    ensures
        crate::table::chars_of(r@) == users_printed(crate::table::chars_of(users@)),
{
    let mut lines: Vec<String> = Vec::new();
    let ghost all = crate::table::chars_of(users@);
    if users.len() == 0 {
        lines.push("No tracked users.".to_owned());
        assert(crate::table::chars_of(lines@) =~= users_printed(all));
        return lines;
    }
    let mut i: usize = 0;
    while i < users.len()
        invariant
            i <= users@.len(),
            lines@.len() == i,
            forall|j: int| 0 <= j < i ==> (#[trigger] lines@[j])@ == users@[j]@,
        decreases users@.len() - i,
    {
        lines.push(users[i].clone());
        i = i + 1;
    }
    assert(crate::table::chars_of(lines@) =~= users_printed(all));
    lines
}

/// What is printed of the devices.
pub open spec fn devices_printed(rows: Seq<Seq<(Seq<char>, Seq<char>)>>) -> Seq<Seq<char>> {
    if rows.len() == 0 {
        seq!["No devices found (user may not be tracked yet)."@]
    } else {
        rows.map_values(|r: Seq<(Seq<char>, Seq<char>)>| device_text(r))
    }
}

/// What is printed of the devices.
pub fn print_devices(rows: &Vec<Vec<(String, String)>>) -> (r: Vec<String>)
    ensures
        crate::table::chars_of(r@) == devices_printed(crate::client::devices::row_views(rows@)),
{
    let mut lines: Vec<String> = Vec::new();
    let ghost all = crate::client::devices::row_views(rows@);
    assert(all.len() == rows@.len());
    if rows.len() == 0 {
        lines.push("No devices found (user may not be tracked yet).".to_owned());
        assert(crate::table::chars_of(lines@) =~= devices_printed(all));
        return lines;
    }
    let mut i: usize = 0;
    while i < rows.len()
        invariant
            i <= rows@.len(),
            all == crate::client::devices::row_views(rows@),
            lines@.len() == i,
            forall|j: int| 0 <= j < i ==> (#[trigger] lines@[j])@ == device_text(all[j]),
        decreases rows@.len() - i,
    {
        assert(all[i as int] == crate::messages::pair_views(rows@[i as int]@));
        lines.push(device_line(&rows[i]));
        i = i + 1;
    }
    assert(crate::table::chars_of(lines@) =~= devices_printed(all));
    lines
}

/// What is printed once the daemon has taken a call and returned an identifier.
pub open spec fn taken_printed(after: After, message_id: Seq<char>) -> Seq<Seq<char>> {
    match after {
        After::AwaitStarted => seq![
            "SAS verification initiated (message_id="@ + message_id + ")"@,
            "Waiting for the remote device to accept..."@,
        ],
        After::AwaitAccepted => seq!["SAS accept sent (message_id="@ + message_id + ")"@],
        After::SayAnyways => seq!["Send-anyways command dispatched."@],
        After::SayCancelled => seq!["Cancel-sending command dispatched."@],
        _ => Seq::empty(),
    }
}

/// What is printed once the daemon has taken a call.
pub fn print_taken(after: After, message_id: &str) -> (r: Vec<String>)
    ensures
        crate::table::chars_of(r@) == taken_printed(after, message_id@),
{
    let mut lines: Vec<String> = Vec::new();
    match after {
        After::AwaitStarted => {
            lines.push(
                "SAS verification initiated (message_id=".to_owned().concat(message_id).concat(
                    ")",
                ),
            );
            lines.push("Waiting for the remote device to accept...".to_owned());
        },
        After::AwaitAccepted => {
            lines.push("SAS accept sent (message_id=".to_owned().concat(message_id).concat(")"));
        },
        After::SayAnyways => {
            lines.push("Send-anyways command dispatched.".to_owned());
        },
        After::SayCancelled => {
            lines.push("Cancel-sending command dispatched.".to_owned());
        },
        _ => {},
    }
    assert(crate::table::chars_of(lines@) =~= taken_printed(after, message_id@));
    lines
}

/// The answer to a command: whether it was carried out, and what is printed of it.
#[derive(Debug)]
pub struct Verdict {
    pub success: bool,
    pub line: String,
}

/// Whether a code stands for success.
pub open spec fn success_code(code: Seq<char>) -> bool {
    code == "M_OK"@ || code == "ok"@
}

/// What an answer with a code and a message comes to.
pub open spec fn verdict_text(code: Seq<char>, message: Seq<char>) -> Seq<char> {
    if success_code(code) {
        "OK: "@ + message
    } else {
        "Error ("@ + code + "): "@ + message
    }
}

/// Takes an answer that was heard: nothing comes of it unless it is the one waited for.
pub fn wait_response(waiting_for: &str, message_id: &str, code: &str, message: &str) -> (r: Option<
    Verdict,
>)
    ensures
        r is Some <==> message_id@ == waiting_for@,
        r matches Some(v) ==> v.success == success_code(code@) && v.line@ == verdict_text(
            code@,
            message@,
        ),
{
    if !same(message_id, waiting_for) {
        return None;
    }
    if same(code, "M_OK") || same(code, "ok") {
        Some(Verdict { success: true, line: "OK: ".to_owned().concat(message) })
    } else {
        Some(
            Verdict {
                success: false,
                line: "Error (".to_owned().concat(code).concat("): ").concat(message),
            },
        )
    }
}

/// A command that the daemon carried out counts as a success, and one that it did not counts
/// as a failure.
pub proof fn verdict_matches_answer(
    cmd: crate::messages::UiToDaemon,
    outcome: crate::client::commands::Outcome,
)
    ensures
        success_code(crate::client::commands::outcome_answer(cmd, outcome).0) <==> outcome is Done,
{
    reveal_strlit("M_OK");
    reveal_strlit("ok");
    reveal_strlit("M_UNKNOWN");
    assert("M_OK"@.len() == 4 && "ok"@.len() == 2 && "M_UNKNOWN"@.len() == 9);
}

/// The answer to a command comes out of the daemon under the identifier of the command, so
/// that the tool that waits for it hears it.
pub proof fn answers_reach_the_tool(
    cmd: crate::messages::UiToDaemon,
    pan_user: Seq<char>,
    code: Seq<char>,
    message: Seq<char>,
)
    ensures
        ({
            let signal = crate::dbus::signal_for(
                crate::client::commands::answer(cmd, pan_user, code, message),
            );
            &&& signal.interface == Interface::Control
            &&& signal.member == "Response"@
            &&& signal.texts == seq![cmd.spec_message_id(), pan_user, code, message]
        }),
{
}

/// The line for an emoji.
pub open spec fn emoji_text(e: (Seq<char>, Seq<char>)) -> Seq<char> {
    "  "@ + e.0 + "  "@ + e.1
}

/// What is printed of emoji.
pub open spec fn emoji_printed(emoji: Seq<(Seq<char>, Seq<char>)>) -> Seq<Seq<char>> {
    seq![
        ""@,
        "Verify that both devices show the same emoji:"@,
        "--------------------------------------------------"@,
    ] + emoji.map_values(|e: (Seq<char>, Seq<char>)| emoji_text(e)) + seq![
        "--------------------------------------------------"@,
        "Run `panctl confirm-verification` if they match, or `panctl cancel-verification` to abort."@,
    ]
}

/// What is printed of emoji.
fn print_emoji(emoji: &Vec<(String, String)>) -> (r: Vec<String>)
    ensures
        crate::table::chars_of(r@) == emoji_printed(crate::messages::pair_views(emoji@)),
{
    let mut lines: Vec<String> = Vec::new();
    lines.push("".to_owned());
    lines.push("Verify that both devices show the same emoji:".to_owned());
    lines.push("--------------------------------------------------".to_owned());
    let ghost all = crate::messages::pair_views(emoji@);
    let ghost head = crate::table::chars_of(lines@);
    let ghost body = all.map_values(|e: (Seq<char>, Seq<char>)| emoji_text(e));
    let mut i: usize = 0;
    assert(head =~= seq![
        ""@,
        "Verify that both devices show the same emoji:"@,
        "--------------------------------------------------"@,
    ]);
    assert(crate::table::chars_of(lines@) =~= head + body.take(0));
    while i < emoji.len()
        invariant
            i <= emoji@.len(),
            all == crate::messages::pair_views(emoji@),
            body == all.map_values(|e: (Seq<char>, Seq<char>)| emoji_text(e)),
            crate::table::chars_of(lines@) == head + body.take(i as int),
        decreases emoji@.len() - i,
    {
        let ghost before = crate::table::chars_of(lines@);
        let line = "  ".to_owned().concat(emoji[i].0.as_str()).concat("  ").concat(
            emoji[i].1.as_str(),
        );
        assert(all[i as int] == (emoji@[i as int].0@, emoji@[i as int].1@));
        assert(line@ == body[i as int]);
        lines.push(line);
        assert(crate::table::chars_of(lines@) =~= before.push(line@));
        assert(before.push(line@) =~= head + body.take(i + 1));
        i = i + 1;
    }
    assert(body.take(i as int) == body);
    let ghost before = crate::table::chars_of(lines@);
    lines.push("--------------------------------------------------".to_owned());
    lines.push(
        "Run `panctl confirm-verification` if they match, or `panctl cancel-verification` to abort.".to_owned(),
    );
    assert(crate::table::chars_of(lines@) =~= before + seq![
        "--------------------------------------------------"@,
        "Run `panctl confirm-verification` if they match, or `panctl cancel-verification` to abort."@,
    ]);
    lines
}

/// The verification that is waited for, or that emoji were shown for.
#[derive(Debug)]
pub struct Parties {
    pub pan_user: String,
    pub user_id: String,
    pub device_id: String,
}

/// Whether two verifications are between the same parties.
pub open spec fn same_parties(a: Parties, b: Parties) -> bool {
    a.pan_user@ == b.pan_user@ && a.user_id@ == b.user_id@ && a.device_id@ == b.device_id@
}

/// Takes emoji that were heard of: nothing is printed unless they are those waited for.
pub fn wait_sas_show(waiting_for: &Parties, heard: &Parties, emoji: &Vec<(String, String)>) -> (r:
    Option<Vec<String>>)
    ensures
        r is Some <==> same_parties(*waiting_for, *heard),
        r matches Some(lines) ==> crate::table::chars_of(lines@) == emoji_printed(
            crate::messages::pair_views(emoji@),
        ),
{
    if same(heard.pan_user.as_str(), waiting_for.pan_user.as_str()) && same(
        heard.user_id.as_str(),
        waiting_for.user_id.as_str(),
    ) && same(heard.device_id.as_str(), waiting_for.device_id.as_str()) {
        Some(print_emoji(emoji))
    } else {
        None
    }
}

} // verus!
