//! The control interface on the session bus: the commands that it takes, what it lists, and
//! the signals that it emits.

use vstd::prelude::*;
use crate::messages::{DaemonToUi, UiToDaemon};
use crate::proxy::daemon::ProxyDaemon;
use crate::text::{decimal_text, insert_in_order, same};

verus! {

/// The source of the identifiers of commands.
#[derive(Debug)]
pub struct MessageIds {
    next: u32,
}

impl View for MessageIds {
    type V = nat;

    closed spec fn view(&self) -> nat {
        self.next as nat
    }
}

/// The number after `n`, from the largest one on to zero.
pub open spec fn successor(n: nat) -> nat {
    if n == u32::MAX {
        0
    } else {
        n + 1
    }
}

impl MessageIds {
    /// A source that begins with one.
    pub fn new() -> (r: MessageIds)
        ensures
            r@ == 1,
    {
        MessageIds { next: 1 }
    }

    /// The next identifier.
    pub fn next_id(&mut self) -> (r: String)
        ensures
            r@ == crate::text::decimal(old(self)@),
            final(self)@ == successor(old(self)@),
    {
        let id = decimal_text(self.next as u64);
        self.next = if self.next == u32::MAX {
            0
        } else {
            self.next + 1
        };
        id
    }
}

/// Identifiers of different numbers differ.
pub proof fn ids_differ(a: nat, b: nat)
    requires
        a != b,
    ensures
        crate::text::decimal(a) != crate::text::decimal(b),
{
    crate::text::lemma_decimal_value(a);
    crate::text::lemma_decimal_value(b);
}

/// A command about a device.
#[derive(Debug, Clone, Copy, PartialEq, Eq, Structural)]
pub enum DeviceCommand {
    StartSas,
    AcceptSas,
    ConfirmSas,
    CancelSas,
    VerifyDevice,
    UnverifyDevice,
    BlacklistDevice,
    UnblacklistDevice,
    ContinueKeyShare,
    CancelKeyShare,
}

/// A command about a file with keys.
#[derive(Debug, Clone, Copy, PartialEq, Eq, Structural)]
pub enum KeyFileCommand {
    ImportKeys,
    ExportKeys,
}

/// Whether a command is of a kind.
pub open spec fn of_kind(cmd: UiToDaemon, kind: DeviceCommand) -> bool {
    match kind {
        DeviceCommand::StartSas => cmd is StartSas,
        DeviceCommand::AcceptSas => cmd is AcceptSas,
        DeviceCommand::ConfirmSas => cmd is ConfirmSas,
        DeviceCommand::CancelSas => cmd is CancelSas,
        DeviceCommand::VerifyDevice => cmd is VerifyDevice,
        DeviceCommand::UnverifyDevice => cmd is UnverifyDevice,
        DeviceCommand::BlacklistDevice => cmd is BlacklistDevice,
        DeviceCommand::UnblacklistDevice => cmd is UnblacklistDevice,
        DeviceCommand::ContinueKeyShare => cmd is ContinueKeyShare,
        DeviceCommand::CancelKeyShare => cmd is CancelKeyShare,
    }
}

/// Makes a command about a device, under a new identifier, which is returned too.
pub fn device_command(
    ids: &mut MessageIds,
    kind: DeviceCommand,
    pan_user: String,
    user_id: String,
    device_id: String,
) -> (r: (String, UiToDaemon))
    ensures
        final(ids)@ == successor(old(ids)@),
        r.0@ == crate::text::decimal(old(ids)@),
        of_kind(r.1, kind),
        r.1.spec_message_id() == r.0@,
        r.1.spec_pan_user() == pan_user@,
        crate::client::commands::device_of(r.1) == Some((user_id@, device_id@)),
{
    let id = ids.next_id();
    let message_id = id.clone();
    let cmd = match kind {
        DeviceCommand::StartSas => {
            UiToDaemon::StartSas { message_id, pan_user, user_id, device_id }
        },
        DeviceCommand::AcceptSas => {
            UiToDaemon::AcceptSas { message_id, pan_user, user_id, device_id }
        },
        DeviceCommand::ConfirmSas => {
            UiToDaemon::ConfirmSas { message_id, pan_user, user_id, device_id }
        },
        DeviceCommand::CancelSas => {
            UiToDaemon::CancelSas { message_id, pan_user, user_id, device_id }
        },
        DeviceCommand::VerifyDevice => {
            UiToDaemon::VerifyDevice { message_id, pan_user, user_id, device_id }
        },
        DeviceCommand::UnverifyDevice => {
            UiToDaemon::UnverifyDevice { message_id, pan_user, user_id, device_id }
        },
        DeviceCommand::BlacklistDevice => {
            UiToDaemon::BlacklistDevice { message_id, pan_user, user_id, device_id }
        },
        DeviceCommand::UnblacklistDevice => {
            UiToDaemon::UnblacklistDevice { message_id, pan_user, user_id, device_id }
        },
        DeviceCommand::ContinueKeyShare => {
            UiToDaemon::ContinueKeyShare { message_id, pan_user, user_id, device_id }
        },
        DeviceCommand::CancelKeyShare => {
            UiToDaemon::CancelKeyShare { message_id, pan_user, user_id, device_id }
        },
    };
    (id, cmd)
}

/// Makes a command about a file with keys, under a new identifier, which is returned too.
pub fn key_file_command(
    ids: &mut MessageIds,
    kind: KeyFileCommand,
    pan_user: String,
    file_path: String,
    passphrase: String,
) -> (r: (String, UiToDaemon))
    ensures
        final(ids)@ == successor(old(ids)@),
        r.0@ == crate::text::decimal(old(ids)@),
        match kind {
            KeyFileCommand::ImportKeys => r.1 matches UiToDaemon::ImportKeys {
                message_id: i,
                pan_user: u,
                file_path: f,
                passphrase: p,
            } && i@ == r.0@ && u@ == pan_user@ && f@ == file_path@ && p@ == passphrase@,
            KeyFileCommand::ExportKeys => r.1 matches UiToDaemon::ExportKeys {
                message_id: i,
                pan_user: u,
                file_path: f,
                passphrase: p,
            } && i@ == r.0@ && u@ == pan_user@ && f@ == file_path@ && p@ == passphrase@,
        },
{
    let id = ids.next_id();
    let message_id = id.clone();
    let cmd = match kind {
        KeyFileCommand::ImportKeys => {
            UiToDaemon::ImportKeys { message_id, pan_user, file_path, passphrase }
        },
        KeyFileCommand::ExportKeys => {
            UiToDaemon::ExportKeys { message_id, pan_user, file_path, passphrase }
        },
    };
    (id, cmd)
}

/// Makes the command to restore an identity, under a new identifier, which is returned too.
pub fn recover_identity(ids: &mut MessageIds, pan_user: String, key_input: String) -> (r: (
    String,
    UiToDaemon,
))
    ensures
        final(ids)@ == successor(old(ids)@),
        r.0@ == crate::text::decimal(old(ids)@),
        r.1 matches UiToDaemon::RecoverIdentity { message_id: i, pan_user: u, key_input: k } && i@
            == r.0@ && u@ == pan_user@ && k@ == key_input@,
{
    let id = ids.next_id();
    let cmd = UiToDaemon::RecoverIdentity { message_id: id.clone(), pan_user, key_input };
    (id, cmd)
}

/// Makes the command that decides about a message that is held up, under the identifier of
/// the caller.
pub fn held_message_command(
    anyways: bool,
    pan_user: String,
    message_id: String,
    room_id: String,
) -> (r: UiToDaemon)
    ensures
        r.spec_message_id() == message_id@,
        r.spec_pan_user() == pan_user@,
        crate::proxy::send::decision_in(r, pan_user@, room_id@) == Some(
            if anyways {
                crate::proxy::send::Decision::SendAnyways
            } else {
                crate::proxy::send::Decision::Cancel
            },
        ),
{
    if anyways {
        UiToDaemon::SendAnyways { message_id, pan_user, room_id }
    } else {
        UiToDaemon::CancelSending { message_id, pan_user, room_id }
    }
}

/// Whether a user has a session with one of the proxies.
pub open spec fn logged_in(daemons: Seq<&ProxyDaemon>, user: Seq<char>) -> bool {
    exists|i: int| 0 <= i < daemons.len() && (#[trigger] daemons[i])@.clients.contains_key(user)
}

/// The proxy with which a user has a session: the first one.
pub fn find_client(daemons: &Vec<&ProxyDaemon>, pan_user: &str) -> (r: Option<usize>)
    ensures
        r is Some <==> logged_in(daemons@, pan_user@),
        r matches Some(i) ==> i < daemons@.len() && daemons@[i as int]@.clients.contains_key(
            pan_user@,
        ) && forall|j: int|
            0 <= j < i ==> !(#[trigger] daemons@[j])@.clients.contains_key(pan_user@),
{
    let mut i: usize = 0;
    while i < daemons.len()
        invariant
            i <= daemons@.len(),
            forall|j: int|
                0 <= j < i ==> !(#[trigger] daemons@[j])@.clients.contains_key(pan_user@),
        decreases daemons@.len() - i,
    {
        if daemons[i].has_client(pan_user) {
            return Some(i);
        }
        i = i + 1;
    }
    None
}

/// What is told of a server.
pub open spec fn server_row(s: crate::config::ServerView) -> Seq<(Seq<char>, Seq<char>)> {
    seq![
        ("name"@, s.name),
        ("homeserver"@, s.homeserver),
        ("listen_address"@, s.listen_address),
        ("listen_port"@, crate::text::decimal(s.listen_port)),
    ]
}

/// What is told of the servers, in order.
pub fn list_servers(daemons: &Vec<&ProxyDaemon>) -> (r: Vec<Vec<(String, String)>>)
    ensures
        crate::client::devices::row_views(r@) == daemons@.map_values(
            |d: &ProxyDaemon| server_row(d@.server),
        ),
{
    let mut rows: Vec<Vec<(String, String)>> = Vec::new();
    let mut i: usize = 0;
    while i < daemons.len()
        invariant
            i <= daemons@.len(),
            rows@.len() == i,
            forall|j: int|
                0 <= j < i ==> crate::messages::pair_views((#[trigger] rows@[j])@) == server_row(
                    daemons@[j]@.server,
                ),
        decreases daemons@.len() - i,
    {
        let c = daemons[i].config();
        let mut row: Vec<(String, String)> = Vec::new();
        row.push(("name".to_owned(), c.name.clone()));
        row.push(("homeserver".to_owned(), c.homeserver.clone()));
        row.push(("listen_address".to_owned(), c.listen_address.clone()));
        row.push(("listen_port".to_owned(), decimal_text(c.listen_port as u64)));
        assert(crate::messages::pair_views(row@) =~= server_row(c@));
        rows.push(row);
        i = i + 1;
    }
    assert(crate::client::devices::row_views(rows@) =~= daemons@.map_values(
        |d: &ProxyDaemon| server_row(d@.server),
    ));
    rows
}

/// The users with a session, in the order of their names, each once.
pub fn list_users(daemons: &Vec<&ProxyDaemon>) -> (r: Vec<String>)
    ensures
        crate::text::in_order(r@),
        forall|u: Seq<char>| #[trigger] crate::text::listed(r@, u) <==> logged_in(daemons@, u),
{
    let mut users: Vec<String> = Vec::new();
    let mut n: usize = 0;
    while n < daemons.len()
        invariant
            n <= daemons@.len(),
            crate::text::in_order(users@),
            forall|u: Seq<char>| #[trigger]
                crate::text::listed(users@, u) <==> exists|i: int|
                    0 <= i < n && (#[trigger] daemons@[i])@.clients.contains_key(u),
        decreases daemons@.len() - n,
    {
        let sessions = daemons[n].sessions();
        let ghost before = users@;
        let mut k: usize = 0;
        while k < sessions.len()
            invariant
                k <= sessions@.len(),
                crate::text::in_order(users@),
                forall|u: Seq<char>| #[trigger]
                    crate::text::listed(users@, u) <==> crate::text::listed(before, u) || exists|j: int|
                        0 <= j < k && (#[trigger] sessions@[j]).0@ == u,
            decreases sessions@.len() - k,
        {
            let ghost inner = users@;
            insert_in_order(&mut users, sessions[k].0.as_str());
            assert forall|u: Seq<char>| #[trigger]
                crate::text::listed(users@, u) <==> crate::text::listed(before, u) || exists|j: int|
                    0 <= j < k + 1 && (#[trigger] sessions@[j]).0@ == u by {
                assert(crate::text::listed(users@, u) <==> crate::text::listed(inner, u) || u == sessions@[k as int].0@);
                if exists|j: int| 0 <= j < k && (#[trigger] sessions@[j]).0@ == u {
                    let j = choose|j: int| 0 <= j < k && (#[trigger] sessions@[j]).0@ == u;
                    assert(sessions@[j].0@ == u);
                }
            }
            k = k + 1;
        }
        proof {
            let here = daemons@[n as int]@.clients;
            assert forall|u: Seq<char>| #[trigger]
                crate::text::listed(users@, u) <==> exists|i: int|
                    0 <= i < n + 1 && (#[trigger] daemons@[i])@.clients.contains_key(u) by {
                if here.contains_key(u) {
                    crate::maps::lemma_entry_found(sessions@, u);
                }
                if exists|j: int| 0 <= j < sessions@.len() && (#[trigger] sessions@[j]).0@ == u {
                    let j = choose|j: int|
                        0 <= j < sessions@.len() && (#[trigger] sessions@[j]).0@ == u;
                    crate::maps::lemma_entry_held(sessions@, j);
                    assert(daemons@[n as int]@.clients.contains_key(u));
                }
                if exists|i: int| 0 <= i < n && (#[trigger] daemons@[i])@.clients.contains_key(u) {
                    let i = choose|i: int|
                        0 <= i < n && (#[trigger] daemons@[i])@.clients.contains_key(u);
                    assert(daemons@[i]@.clients.contains_key(u));
                }
            }
        }
        n = n + 1;
    }
    users
}

/// The interface that a signal belongs to.
#[derive(Debug, Clone, Copy, PartialEq, Eq, Structural)]
pub enum Interface {
    Control,
    Devices,
}

/// A signal: its name and its arguments, which are texts, and emoji where it shows some.
#[derive(Debug)]
pub struct Signal {
    pub interface: Interface,
    pub member: String,
    pub texts: Vec<String>,
    pub emoji: Option<Vec<(String, String)>>,
}

/// What a signal means.
#[verifier::ext_equal]
pub struct SignalView {
    pub interface: Interface,
    pub member: Seq<char>,
    pub texts: Seq<Seq<char>>,
    pub emoji: Option<Seq<(Seq<char>, Seq<char>)>>,
}

impl View for Signal {
    type V = SignalView;

    open spec fn view(&self) -> SignalView {
        SignalView {
            interface: self.interface,
            member: self.member@,
            texts: crate::table::chars_of(self.texts@),
            emoji: match self.emoji {
                Some(e) => Some(crate::messages::pair_views(e@)),
                None => None,
            },
        }
    }
}

/// The signal that a message to the user interface becomes.
pub open spec fn signal_for(m: crate::messages::UiView) -> SignalView {
    match m {
        crate::messages::UiView::UnverifiedDevices { pan_user, room_id, room_display_name } => {
            SignalView {
                interface: Interface::Control,
                member: "UnverifiedDevices"@,
                texts: seq![pan_user, room_id, room_display_name],
                emoji: None,
            }
        },
        crate::messages::UiView::SasInvite { pan_user, user_id, device_id, transaction_id } => {
            SignalView {
                interface: Interface::Control,
                member: "SasInvite"@,
                texts: seq![pan_user, user_id, device_id, transaction_id],
                emoji: None,
            }
        },
        crate::messages::UiView::SasShow {
            pan_user,
            user_id,
            device_id,
            transaction_id,
            emoji,
        } => {
            SignalView {
                interface: Interface::Control,
                member: "SasShow"@,
                texts: seq![pan_user, user_id, device_id, transaction_id],
                emoji: Some(emoji),
            }
        },
        crate::messages::UiView::SasDone { pan_user, user_id, device_id, transaction_id } => {
            SignalView {
                interface: Interface::Control,
                member: "SasDone"@,
                texts: seq![pan_user, user_id, device_id, transaction_id],
                emoji: None,
            }
        },
        crate::messages::UiView::Response { message_id, pan_user, code, message } => {
            SignalView {
                interface: Interface::Control,
                member: "Response"@,
                texts: seq![message_id, pan_user, code, message],
                emoji: None,
            }
        },
        crate::messages::UiView::UpdateUser { server, user_id, device_id } => {
            SignalView {
                interface: Interface::Control,
                member: "UpdateUser"@,
                texts: seq![server, user_id, device_id],
                emoji: None,
            }
        },
        crate::messages::UiView::UpdateDevices { pan_user, devices } => {
            SignalView {
                interface: Interface::Devices,
                member: "UpdateDevices"@,
                texts: seq![pan_user, crate::json::encoded(devices)],
                emoji: None,
            }
        },
        crate::messages::UiView::KeyRequest { pan_user, event } => {
            SignalView {
                interface: Interface::Control,
                member: "KeyRequest"@,
                texts: seq![pan_user, crate::json::encoded(event)],
                emoji: None,
            }
        },
    }
}

/// A list of two texts.
fn two(a: String, b: String) -> (r: Vec<String>)
    ensures
        crate::table::chars_of(r@) == seq![a@, b@],
{
    let mut v: Vec<String> = Vec::new();
    v.push(a);
    v.push(b);
    assert(crate::table::chars_of(v@) =~= seq![a@, b@]);
    v
}

/// A list of three texts.
fn three(a: String, b: String, c: String) -> (r: Vec<String>)
    ensures
        crate::table::chars_of(r@) == seq![a@, b@, c@],
{
    let mut v: Vec<String> = Vec::new();
    v.push(a);
    v.push(b);
    v.push(c);
    assert(crate::table::chars_of(v@) =~= seq![a@, b@, c@]);
    v
}

/// A list of four texts.
fn four(a: String, b: String, c: String, d: String) -> (r: Vec<String>)
    ensures
        crate::table::chars_of(r@) == seq![a@, b@, c@, d@],
{
    let mut v: Vec<String> = Vec::new();
    v.push(a);
    v.push(b);
    v.push(c);
    v.push(d);
    assert(crate::table::chars_of(v@) =~= seq![a@, b@, c@, d@]);
    v
}

/// A signal of the control interface.
fn control(member: &str, texts: Vec<String>) -> (r: Signal)
    ensures
        r@ == (SignalView {
            interface: Interface::Control,
            member: member@,
            texts: crate::table::chars_of(texts@),
            emoji: None,
        }),
{
    Signal { interface: Interface::Control, member: member.to_owned(), texts, emoji: None }
}

/// The signal that a message to the user interface becomes.
pub fn emit_signal(message: DaemonToUi) -> (r: Signal)
    ensures
        r@ == signal_for(message@),
        message matches DaemonToUi::UpdateDevices { devices, .. } ==> crate::json::reads_as(
            vstd::utf8::encode_utf8(r@.texts[1]),
            devices@,
        ),
        message matches DaemonToUi::KeyRequest { event, .. } ==> crate::json::reads_as(
            vstd::utf8::encode_utf8(r@.texts[1]),
            event@,
        ),
{
    match message {
        DaemonToUi::UnverifiedDevices { pan_user, room_id, room_display_name } => {
            control("UnverifiedDevices", three(pan_user, room_id, room_display_name))
        },
        DaemonToUi::SasInvite { pan_user, user_id, device_id, transaction_id } => {
            control("SasInvite", four(pan_user, user_id, device_id, transaction_id))
        },
        DaemonToUi::SasShow { pan_user, user_id, device_id, transaction_id, emoji } => {
            Signal {
                interface: Interface::Control,
                member: "SasShow".to_owned(),
                texts: four(pan_user, user_id, device_id, transaction_id),
                emoji: Some(emoji),
            }
        },
        DaemonToUi::SasDone { pan_user, user_id, device_id, transaction_id } => {
            control("SasDone", four(pan_user, user_id, device_id, transaction_id))
        },
        DaemonToUi::Response { message_id, pan_user, code, message } => {
            control("Response", four(message_id, pan_user, code, message))
        },
        DaemonToUi::UpdateUser { server, user_id, device_id } => {
            control("UpdateUser", three(server, user_id, device_id))
        },
        DaemonToUi::UpdateDevices { pan_user, devices } => {
            Signal {
                interface: Interface::Devices,
                member: "UpdateDevices".to_owned(),
                texts: two(pan_user, devices.write()),
                emoji: None,
            }
        },
        DaemonToUi::KeyRequest { pan_user, event } => {
            control("KeyRequest", two(pan_user, event.write()))
        },
    }
}

} // verus!
