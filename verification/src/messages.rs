//! What the daemon and its user interface say to each other.

use vstd::prelude::*;
use crate::json::Json;

verus! {

/// A message from the daemon to the user interface.
#[derive(Debug)]
pub enum DaemonToUi {
    /// Unverified devices hold up a message to an encrypted room.
    UnverifiedDevices { pan_user: String, room_id: String, room_display_name: String },
    /// A device asks for an emoji verification.
    SasInvite { pan_user: String, user_id: String, device_id: String, transaction_id: String },
    /// The emoji of a verification can be compared.
    SasShow {
        pan_user: String,
        user_id: String,
        device_id: String,
        transaction_id: String,
        emoji: Vec<(String, String)>,
    },
    /// An emoji verification is over, confirmed or cancelled.
    SasDone { pan_user: String, user_id: String, device_id: String, transaction_id: String },
    /// The answer to a command.
    Response { message_id: String, pan_user: String, code: String, message: String },
    /// A user and a device are now known on a server.
    UpdateUser { server: String, user_id: String, device_id: String },
    /// The devices of a user have changed.
    UpdateDevices { pan_user: String, devices: Json },
    /// A device asks for room keys.
    KeyRequest { pan_user: String, event: Json },
}

/// What a message to the user interface means.
#[verifier::ext_equal]
pub enum UiView {
    UnverifiedDevices {
        pan_user: Seq<char>,
        room_id: Seq<char>,
        room_display_name: Seq<char>,
    },
    SasInvite {
        pan_user: Seq<char>,
        user_id: Seq<char>,
        device_id: Seq<char>,
        transaction_id: Seq<char>,
    },
    SasShow {
        pan_user: Seq<char>,
        user_id: Seq<char>,
        device_id: Seq<char>,
        transaction_id: Seq<char>,
        emoji: Seq<(Seq<char>, Seq<char>)>,
    },
    SasDone {
        pan_user: Seq<char>,
        user_id: Seq<char>,
        device_id: Seq<char>,
        transaction_id: Seq<char>,
    },
    Response {
        message_id: Seq<char>,
        pan_user: Seq<char>,
        code: Seq<char>,
        message: Seq<char>,
    },
    UpdateUser { server: Seq<char>, user_id: Seq<char>, device_id: Seq<char> },
    UpdateDevices { pan_user: Seq<char>, devices: crate::json::JsonView },
    KeyRequest { pan_user: Seq<char>, event: crate::json::JsonView },
}

/// What a list of pairs of texts means.
pub open spec fn pair_views(pairs: Seq<(String, String)>) -> Seq<(Seq<char>, Seq<char>)> {
    pairs.map_values(|p: (String, String)| (p.0@, p.1@))
}

impl View for DaemonToUi {
    type V = UiView;

    open spec fn view(&self) -> UiView {
        match *self {
            DaemonToUi::UnverifiedDevices { pan_user, room_id, room_display_name } => {
                UiView::UnverifiedDevices {
                    pan_user: pan_user@,
                    room_id: room_id@,
                    room_display_name: room_display_name@,
                }
            },
            DaemonToUi::SasInvite { pan_user, user_id, device_id, transaction_id } => {
                UiView::SasInvite {
                    pan_user: pan_user@,
                    user_id: user_id@,
                    device_id: device_id@,
                    transaction_id: transaction_id@,
                }
            },
            DaemonToUi::SasShow { pan_user, user_id, device_id, transaction_id, emoji } => {
                UiView::SasShow {
                    pan_user: pan_user@,
                    user_id: user_id@,
                    device_id: device_id@,
                    transaction_id: transaction_id@,
                    emoji: pair_views(emoji@),
                }
            },
            DaemonToUi::SasDone { pan_user, user_id, device_id, transaction_id } => {
                UiView::SasDone {
                    pan_user: pan_user@,
                    user_id: user_id@,
                    device_id: device_id@,
                    transaction_id: transaction_id@,
                }
            },
            DaemonToUi::Response { message_id, pan_user, code, message } => {
                UiView::Response {
                    message_id: message_id@,
                    pan_user: pan_user@,
                    code: code@,
                    message: message@,
                }
            },
            DaemonToUi::UpdateUser { server, user_id, device_id } => {
                UiView::UpdateUser {
                    server: server@,
                    user_id: user_id@,
                    device_id: device_id@,
                }
            },
            DaemonToUi::UpdateDevices { pan_user, devices } => {
                UiView::UpdateDevices { pan_user: pan_user@, devices: devices@ }
            },
            DaemonToUi::KeyRequest { pan_user, event } => {
                UiView::KeyRequest { pan_user: pan_user@, event: event@ }
            },
        }
    }
}

/// What a list of messages to the user interface means.
pub open spec fn ui_views(messages: Seq<DaemonToUi>) -> Seq<UiView> {
    messages.map_values(|m: DaemonToUi| m@)
}

/// A command from the user interface to the daemon.
#[derive(Debug, Clone)]
pub enum UiToDaemon {
    /// Send a blocked message despite the unverified devices in the room.
    SendAnyways { message_id: String, pan_user: String, room_id: String },
    /// Give up on a blocked message.
    CancelSending { message_id: String, pan_user: String, room_id: String },
    /// Mark a device as verified.
    VerifyDevice { message_id: String, pan_user: String, user_id: String, device_id: String },
    /// Take the verified mark off a device.
    UnverifyDevice { message_id: String, pan_user: String, user_id: String, device_id: String },
    /// Never hand keys to a device.
    BlacklistDevice { message_id: String, pan_user: String, user_id: String, device_id: String },
    /// Take a device off the blacklist.
    UnblacklistDevice { message_id: String, pan_user: String, user_id: String, device_id: String },
    /// Read room keys from a file.
    ImportKeys { message_id: String, pan_user: String, file_path: String, passphrase: String },
    /// Write room keys to a file.
    ExportKeys { message_id: String, pan_user: String, file_path: String, passphrase: String },
    /// Start an emoji verification with a device.
    StartSas { message_id: String, pan_user: String, user_id: String, device_id: String },
    /// Cancel a running emoji verification.
    CancelSas { message_id: String, pan_user: String, user_id: String, device_id: String },
    /// Confirm that the emoji match.
    ConfirmSas { message_id: String, pan_user: String, user_id: String, device_id: String },
    /// Accept an emoji verification that the device asked for.
    AcceptSas { message_id: String, pan_user: String, user_id: String, device_id: String },
    /// Forward a pending key-share request.
    ContinueKeyShare { message_id: String, pan_user: String, user_id: String, device_id: String },
    /// Reject a pending key-share request.
    CancelKeyShare { message_id: String, pan_user: String, user_id: String, device_id: String },
    /// Restore the cross-signing identity from a security key or a passphrase.
    RecoverIdentity { message_id: String, pan_user: String, key_input: String },
}

impl UiToDaemon {
    /// The session that a command is meant for.
    pub open spec fn spec_pan_user(self) -> Seq<char> {
        match self {
            UiToDaemon::SendAnyways { pan_user, .. } => pan_user@,
            UiToDaemon::CancelSending { pan_user, .. } => pan_user@,
            UiToDaemon::VerifyDevice { pan_user, .. } => pan_user@,
            UiToDaemon::UnverifyDevice { pan_user, .. } => pan_user@,
            UiToDaemon::BlacklistDevice { pan_user, .. } => pan_user@,
            UiToDaemon::UnblacklistDevice { pan_user, .. } => pan_user@,
            UiToDaemon::ImportKeys { pan_user, .. } => pan_user@,
            UiToDaemon::ExportKeys { pan_user, .. } => pan_user@,
            UiToDaemon::StartSas { pan_user, .. } => pan_user@,
            UiToDaemon::CancelSas { pan_user, .. } => pan_user@,
            UiToDaemon::ConfirmSas { pan_user, .. } => pan_user@,
            UiToDaemon::AcceptSas { pan_user, .. } => pan_user@,
            UiToDaemon::ContinueKeyShare { pan_user, .. } => pan_user@,
            UiToDaemon::CancelKeyShare { pan_user, .. } => pan_user@,
            UiToDaemon::RecoverIdentity { pan_user, .. } => pan_user@,
        }
    }

    /// The identifier that the answer to a command carries.
    pub open spec fn spec_message_id(self) -> Seq<char> {
        match self {
            UiToDaemon::SendAnyways { message_id, .. } => message_id@,
            UiToDaemon::CancelSending { message_id, .. } => message_id@,
            UiToDaemon::VerifyDevice { message_id, .. } => message_id@,
            UiToDaemon::UnverifyDevice { message_id, .. } => message_id@,
            UiToDaemon::BlacklistDevice { message_id, .. } => message_id@,
            UiToDaemon::UnblacklistDevice { message_id, .. } => message_id@,
            UiToDaemon::ImportKeys { message_id, .. } => message_id@,
            UiToDaemon::ExportKeys { message_id, .. } => message_id@,
            UiToDaemon::StartSas { message_id, .. } => message_id@,
            UiToDaemon::CancelSas { message_id, .. } => message_id@,
            UiToDaemon::ConfirmSas { message_id, .. } => message_id@,
            UiToDaemon::AcceptSas { message_id, .. } => message_id@,
            UiToDaemon::ContinueKeyShare { message_id, .. } => message_id@,
            UiToDaemon::CancelKeyShare { message_id, .. } => message_id@,
            UiToDaemon::RecoverIdentity { message_id, .. } => message_id@,
        }
    }

    /// The `pan_user` field, which every command has.
    pub fn pan_user(&self) -> (r: &str)
        ensures
            r@ == self.spec_pan_user(),
    {
        match self {
            UiToDaemon::SendAnyways { pan_user, .. } => pan_user.as_str(),
            UiToDaemon::CancelSending { pan_user, .. } => pan_user.as_str(),
            UiToDaemon::VerifyDevice { pan_user, .. } => pan_user.as_str(),
            UiToDaemon::UnverifyDevice { pan_user, .. } => pan_user.as_str(),
            UiToDaemon::BlacklistDevice { pan_user, .. } => pan_user.as_str(),
            UiToDaemon::UnblacklistDevice { pan_user, .. } => pan_user.as_str(),
            UiToDaemon::ImportKeys { pan_user, .. } => pan_user.as_str(),
            UiToDaemon::ExportKeys { pan_user, .. } => pan_user.as_str(),
            UiToDaemon::StartSas { pan_user, .. } => pan_user.as_str(),
            UiToDaemon::CancelSas { pan_user, .. } => pan_user.as_str(),
            UiToDaemon::ConfirmSas { pan_user, .. } => pan_user.as_str(),
            UiToDaemon::AcceptSas { pan_user, .. } => pan_user.as_str(),
            UiToDaemon::ContinueKeyShare { pan_user, .. } => pan_user.as_str(),
            UiToDaemon::CancelKeyShare { pan_user, .. } => pan_user.as_str(),
            UiToDaemon::RecoverIdentity { pan_user, .. } => pan_user.as_str(),
        }
    }

    /// The `message_id` field, which every command has.
    pub fn message_id(&self) -> (r: &str)
        ensures
            r@ == self.spec_message_id(),
    {
        match self {
            UiToDaemon::SendAnyways { message_id, .. } => message_id.as_str(),
            UiToDaemon::CancelSending { message_id, .. } => message_id.as_str(),
            UiToDaemon::VerifyDevice { message_id, .. } => message_id.as_str(),
            UiToDaemon::UnverifyDevice { message_id, .. } => message_id.as_str(),
            UiToDaemon::BlacklistDevice { message_id, .. } => message_id.as_str(),
            UiToDaemon::UnblacklistDevice { message_id, .. } => message_id.as_str(),
            UiToDaemon::ImportKeys { message_id, .. } => message_id.as_str(),
            UiToDaemon::ExportKeys { message_id, .. } => message_id.as_str(),
            UiToDaemon::StartSas { message_id, .. } => message_id.as_str(),
            UiToDaemon::CancelSas { message_id, .. } => message_id.as_str(),
            UiToDaemon::ConfirmSas { message_id, .. } => message_id.as_str(),
            UiToDaemon::AcceptSas { message_id, .. } => message_id.as_str(),
            UiToDaemon::ContinueKeyShare { message_id, .. } => message_id.as_str(),
            UiToDaemon::CancelKeyShare { message_id, .. } => message_id.as_str(),
            UiToDaemon::RecoverIdentity { message_id, .. } => message_id.as_str(),
        }
    }
}

} // verus!
