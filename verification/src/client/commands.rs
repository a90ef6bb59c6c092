//! Commands of the user interface: what each asks for, and how it is answered.

use vstd::prelude::*;
use crate::client::devices::Trust;
use crate::client::keys::KeyWish;
use crate::client::PanClient;
use crate::ids::parse_user_id;
use crate::messages::{DaemonToUi, UiToDaemon};

verus! {

/// What a command asks the crypto machine for.
#[derive(Debug)]
pub enum UiAction {
    /// Ask a device to verify.
    StartSas { user_id: String, device_id: String },
    /// Accept the open request of a device.
    AcceptSas { user_id: String, device_id: String },
    /// Confirm the running verification with a device.
    ConfirmSas { user_id: String, device_id: String, flow_id: String },
    /// Cancel the verification that ran with a device, if one did.
    CancelSas { user_id: String, device_id: String, running: Option<String> },
    /// Set how far a device is trusted.
    SetTrust { user_id: String, device_id: String, trust: Trust },
    /// Read room keys from a file.
    ImportKeys { file_path: String, passphrase: String },
    /// Write room keys to a file.
    ExportKeys { file_path: String, passphrase: String },
    /// Restore the cross-signing identity.
    RecoverIdentity { key_input: String },
    /// Forward the room keys that a device asked for.
    ForwardKeys { user_id: String, device_id: String, wishes: Vec<KeyWish> },
    /// Tell a device that it does not get the room keys that it asked for.
    RejectKeys { user_id: String, device_id: String, wishes: Vec<KeyWish> },
}

/// What to do about a command.
#[derive(Debug)]
pub enum UiStep {
    /// Nothing: a waiting message is concerned, not the session.
    Nothing,
    /// Answer at once.
    Respond(DaemonToUi),
    /// Do something first, and answer with how it went.
    Act(UiAction),
}

/// How an action went.
#[derive(Debug)]
pub enum Outcome {
    Done,
    /// There is no such device.
    NoDevice,
    /// The device made no request.
    NoRequest,
    /// Something else went wrong.
    Failed(String),
}

/// The answer to a command.
pub open spec fn answer(
    cmd: UiToDaemon,
    pan_user: Seq<char>,
    code: Seq<char>,
    message: Seq<char>,
) -> crate::messages::UiView {
    crate::messages::UiView::Response {
        message_id: cmd.spec_message_id(),
        pan_user,
        code,
        message,
    }
}

/// The user and the device that a command is about.
pub open spec fn device_of(cmd: UiToDaemon) -> Option<(Seq<char>, Seq<char>)> {
    match cmd {
        UiToDaemon::StartSas { user_id, device_id, .. } => Some((user_id@, device_id@)),
        UiToDaemon::AcceptSas { user_id, device_id, .. } => Some((user_id@, device_id@)),
        UiToDaemon::ConfirmSas { user_id, device_id, .. } => Some((user_id@, device_id@)),
        UiToDaemon::CancelSas { user_id, device_id, .. } => Some((user_id@, device_id@)),
        UiToDaemon::VerifyDevice { user_id, device_id, .. } => Some((user_id@, device_id@)),
        UiToDaemon::UnverifyDevice { user_id, device_id, .. } => Some((user_id@, device_id@)),
        UiToDaemon::BlacklistDevice { user_id, device_id, .. } => Some((user_id@, device_id@)),
        UiToDaemon::UnblacklistDevice { user_id, device_id, .. } => Some((user_id@, device_id@)),
        UiToDaemon::ContinueKeyShare { user_id, device_id, .. } => Some((user_id@, device_id@)),
        UiToDaemon::CancelKeyShare { user_id, device_id, .. } => Some((user_id@, device_id@)),
        _ => None,
    }
}

/// Whether a command is about the device of a user who is looked up by name.
pub open spec fn names_user(cmd: UiToDaemon) -> bool {
    ||| cmd is StartSas
    ||| cmd is AcceptSas
    ||| cmd is VerifyDevice
    ||| cmd is UnverifyDevice
    ||| cmd is BlacklistDevice
    ||| cmd is UnblacklistDevice
}

/// What is wrong with the user that a command names, where it names one.
pub open spec fn user_problem(cmd: UiToDaemon) -> Option<Seq<char>> {
    if names_user(cmd) {
        crate::ids::user_id_problem(device_of(cmd).unwrap().0)
    } else {
        None
    }
}

/// What is wrong with a command that can be told at once. `problem` is what is wrong with
/// the user that it names.
pub open spec fn refusal(
    c: crate::client::ClientView,
    cmd: UiToDaemon,
    problem: Option<Seq<char>>,
) -> Option<Seq<char>> {
    let (user, device) = device_of(cmd).unwrap();
    if names_user(cmd) {
        problem
    } else if cmd is ConfirmSas && !c.active_sas.contains_key(
        crate::client::verification::sas_key(user, device),
    ) {
        Some("no active SAS with "@ + user + ":"@ + device)
    } else if about_key_share(cmd) && wishes_about(c, cmd).len() == 0 {
        Some("no pending key request from "@ + user + ":"@ + device)
    } else {
        None
    }
}

/// The requests for room keys of the device that a command is about.
pub open spec fn wishes_about(c: crate::client::ClientView, cmd: UiToDaemon) -> Seq<
    crate::client::keys::WishView,
> {
    let (user, device) = device_of(cmd).unwrap();
    crate::client::keys::wishes_of(c.key_wishes, user, device)
}

/// The level of trust that a command sets.
pub open spec fn trust_set(cmd: UiToDaemon) -> Option<Trust> {
    match cmd {
        UiToDaemon::VerifyDevice { .. } => Some(Trust::Verified),
        UiToDaemon::UnverifyDevice { .. } => Some(Trust::Unset),
        UiToDaemon::BlacklistDevice { .. } => Some(Trust::BlackListed),
        UiToDaemon::UnblacklistDevice { .. } => Some(Trust::Unset),
        _ => None,
    }
}

/// The flow of the verification that runs with the device that a command is about.
pub open spec fn flow_of(c: crate::client::ClientView, cmd: UiToDaemon) -> Option<Seq<char>> {
    let (user, device) = device_of(cmd).unwrap();
    let key = crate::client::verification::sas_key(user, device);
    if c.active_sas.contains_key(key) {
        Some(c.active_sas[key])
    } else {
        None
    }
}

/// Whether an action is what a command asks for.
pub open spec fn asks_for(
    c: crate::client::ClientView,
    cmd: UiToDaemon,
    action: UiAction,
) -> bool {
    match action {
        UiAction::StartSas { user_id, device_id } => cmd is StartSas && device_of(cmd) == Some(
            (user_id@, device_id@),
        ),
        UiAction::AcceptSas { user_id, device_id } => cmd is AcceptSas && device_of(cmd) == Some(
            (user_id@, device_id@),
        ),
        UiAction::ConfirmSas { user_id, device_id, flow_id } => cmd is ConfirmSas && device_of(cmd)
            == Some((user_id@, device_id@)) && flow_of(c, cmd) == Some(flow_id@),
        UiAction::CancelSas { user_id, device_id, running } => cmd is CancelSas && device_of(cmd)
            == Some((user_id@, device_id@)) && flow_of(c, cmd)
            == crate::client::sync::optional_text(running),
        UiAction::SetTrust { user_id, device_id, trust } => trust_set(cmd) == Some(trust)
            && device_of(cmd) == Some((user_id@, device_id@)),
        UiAction::ImportKeys { file_path, passphrase } => {
            cmd matches UiToDaemon::ImportKeys { file_path: f, passphrase: p, .. } && f@
                == file_path@ && p@ == passphrase@
        },
        UiAction::ExportKeys { file_path, passphrase } => {
            cmd matches UiToDaemon::ExportKeys { file_path: f, passphrase: p, .. } && f@
                == file_path@ && p@ == passphrase@
        },
        UiAction::RecoverIdentity { key_input } => {
            cmd matches UiToDaemon::RecoverIdentity { key_input: k, .. } && k@ == key_input@
        },
        UiAction::ForwardKeys { user_id, device_id, wishes } => cmd is ContinueKeyShare
            && device_of(cmd) == Some((user_id@, device_id@)) && crate::client::keys::wish_views(
            wishes@,
        ) == wishes_about(c, cmd),
        UiAction::RejectKeys { user_id, device_id, wishes } => cmd is CancelKeyShare && device_of(
            cmd,
        ) == Some((user_id@, device_id@)) && crate::client::keys::wish_views(wishes@)
            == wishes_about(c, cmd),
    }
}

/// Whether a command concerns a waiting message.
pub open spec fn about_message(cmd: UiToDaemon) -> bool {
    cmd is SendAnyways || cmd is CancelSending
}

/// Whether a command decides about the room keys that a device asked for.
pub open spec fn about_key_share(cmd: UiToDaemon) -> bool {
    cmd is ContinueKeyShare || cmd is CancelKeyShare
}

/// Whether a step is the one that a command calls for. `problem` is what is wrong with the
/// user that it names.
pub open spec fn right_step(
    c: crate::client::ClientView,
    cmd: UiToDaemon,
    problem: Option<Seq<char>>,
    step: UiStep,
) -> bool {
    if about_message(cmd) {
        step is Nothing
    } else if refusal(c, cmd, problem) is Some {
        step matches UiStep::Respond(m) && m@ == answer(
            cmd,
            c.user_id,
            "M_UNKNOWN"@,
            refusal(c, cmd, problem).unwrap(),
        )
    } else {
        step matches UiStep::Act(action) && asks_for(c, cmd, action)
    }
}

/// What a session knows after a command: a cancelled verification no longer runs, and
/// requests for keys that were decided about no longer wait.
pub open spec fn after_command(c: crate::client::ClientView, cmd: UiToDaemon) -> crate::client::ClientView {
    match cmd {
        UiToDaemon::CancelSas { user_id, device_id, .. } => crate::client::ClientView {
            active_sas: c.active_sas.remove(
                crate::client::verification::sas_key(user_id@, device_id@),
            ),
            ..c
        },
        UiToDaemon::ContinueKeyShare { user_id, device_id, .. }
        | UiToDaemon::CancelKeyShare { user_id, device_id, .. } => crate::client::ClientView {
            key_wishes: crate::client::keys::wishes_of_others(
                c.key_wishes,
                user_id@,
                device_id@,
            ),
            ..c
        },
        _ => c,
    }
}

/// What is said of a command that was carried out.
pub open spec fn success_text(cmd: UiToDaemon) -> Seq<char> {
    match cmd {
        UiToDaemon::StartSas { .. } => "SAS request sent"@,
        UiToDaemon::AcceptSas { .. } => "SAS accepted"@,
        UiToDaemon::ConfirmSas { .. } => "SAS confirmed"@,
        UiToDaemon::CancelSas { .. } => "SAS cancelled"@,
        UiToDaemon::VerifyDevice { .. } => "Device verified"@,
        UiToDaemon::UnverifyDevice { .. } => "Device unverified"@,
        UiToDaemon::BlacklistDevice { .. } => "Device blacklisted"@,
        UiToDaemon::UnblacklistDevice { .. } => "Device unblacklisted"@,
        UiToDaemon::ImportKeys { .. } => "Keys imported"@,
        UiToDaemon::ExportKeys { .. } => "Keys exported"@,
        UiToDaemon::RecoverIdentity { .. } => "Identity recovered"@,
        UiToDaemon::ContinueKeyShare { .. } => "Keys forwarded"@,
        UiToDaemon::CancelKeyShare { .. } => "Key request rejected"@,
        _ => ""@,
    }
}

/// The code and the text of the answer for how an action went.
pub open spec fn outcome_answer(cmd: UiToDaemon, outcome: Outcome) -> (Seq<char>, Seq<char>) {
    let (user, device) = device_of(cmd).unwrap();
    match outcome {
        Outcome::Done => ("M_OK"@, success_text(cmd)),
        Outcome::NoDevice => ("M_UNKNOWN"@, "device "@ + device + " not found for "@ + user),
        Outcome::NoRequest => (
            "M_UNKNOWN"@,
            "no pending verification request from "@ + user + ":"@ + device,
        ),
        Outcome::Failed(e) => ("M_UNKNOWN"@, e@),
    }
}

/// Whether an outcome can be that of a command: only a command about a device can fail
/// for want of one.
pub open spec fn possible(cmd: UiToDaemon, outcome: Outcome) -> bool {
    outcome is NoDevice || outcome is NoRequest ==> device_of(cmd) is Some
}

/// Every command that is not about a waiting message is answered exactly once, at once or
/// after an action, under its own identifier and for the user of the session; the answer
/// is `M_OK` exactly where the action was carried out.
pub proof fn commands_answered(
    c: crate::client::ClientView,
    cmd: UiToDaemon,
    problem: Option<Seq<char>>,
    step: UiStep,
    outcome: Outcome,
)
    requires
        right_step(c, cmd, problem, step),
    ensures
        step is Nothing <==> about_message(cmd),
        step matches UiStep::Respond(m) ==> {
            &&& m@ is Response
            &&& m@->Response_message_id == cmd.spec_message_id()
            &&& m@->Response_pan_user == c.user_id
            &&& m@->code != "M_OK"@
        },
        step is Act ==> {
            let (code, message) = outcome_answer(cmd, outcome);
            let reply = answer(cmd, c.user_id, code, message);
            &&& reply->Response_message_id == cmd.spec_message_id()
            &&& reply->Response_pan_user == c.user_id
            &&& reply->code == "M_OK"@ <==> outcome is Done
        },
{
    reveal_strlit("M_OK");
    reveal_strlit("M_UNKNOWN");
    assert("M_OK"@.len() == 4 && "M_UNKNOWN"@.len() == 9);
}

/// The user and the device that a command is about.
fn device_named(cmd: &UiToDaemon) -> (r: Option<(&String, &String)>)
    ensures
        r is Some <==> device_of(*cmd) is Some,
        r matches Some(p) ==> device_of(*cmd) == Some((p.0@, p.1@)),
{
    match cmd {
        UiToDaemon::StartSas { user_id, device_id, .. } => Some((user_id, device_id)),
        UiToDaemon::AcceptSas { user_id, device_id, .. } => Some((user_id, device_id)),
        UiToDaemon::ConfirmSas { user_id, device_id, .. } => Some((user_id, device_id)),
        UiToDaemon::CancelSas { user_id, device_id, .. } => Some((user_id, device_id)),
        UiToDaemon::VerifyDevice { user_id, device_id, .. } => Some((user_id, device_id)),
        UiToDaemon::UnverifyDevice { user_id, device_id, .. } => Some((user_id, device_id)),
        UiToDaemon::BlacklistDevice { user_id, device_id, .. } => Some((user_id, device_id)),
        UiToDaemon::UnblacklistDevice { user_id, device_id, .. } => Some((user_id, device_id)),
        UiToDaemon::ContinueKeyShare { user_id, device_id, .. } => Some((user_id, device_id)),
        UiToDaemon::CancelKeyShare { user_id, device_id, .. } => Some((user_id, device_id)),
        _ => None,
    }
}

/// What is wrong with the user that a command names, where it names one.
fn problem_with(cmd: &UiToDaemon) -> (r: Option<String>)
    ensures
        crate::client::sync::optional_text(r) == user_problem(*cmd),
        names_user(*cmd) && crate::ids::plain_user_id(device_of(*cmd).unwrap().0) ==> r is None,
{
    match cmd {
        UiToDaemon::StartSas { user_id, .. }
        | UiToDaemon::AcceptSas { user_id, .. }
        | UiToDaemon::VerifyDevice { user_id, .. }
        | UiToDaemon::UnverifyDevice { user_id, .. }
        | UiToDaemon::BlacklistDevice { user_id, .. }
        | UiToDaemon::UnblacklistDevice { user_id, .. } => match parse_user_id(user_id.as_str()) {
            Ok(()) => None,
            Err(e) => Some(e),
        },
        _ => None,
    }
}

impl PanClient {
    /// The answer to a command.
    fn respond(&self, cmd: &UiToDaemon, code: &str, message: &str) -> (r: DaemonToUi)
        ensures
            r@ == answer(*cmd, self@.user_id, code@, message@),
    {
        DaemonToUi::Response {
            message_id: cmd.message_id().to_owned(),
            pan_user: self.user().to_owned(),
            code: code.to_owned(),
            message: message.to_owned(),
        }
    }

    /// The answer to a command about requests for keys where there is none.
    fn no_wish(&self, cmd: &UiToDaemon, user_id: &str, device_id: &str) -> (r: UiStep)
        ensures
            r matches UiStep::Respond(m) && m@ == answer(
                *cmd,
                self@.user_id,
                "M_UNKNOWN"@,
                "no pending key request from "@ + user_id@ + ":"@ + device_id@,
            ),
    {
        let message = "no pending key request from ".to_owned().concat(user_id).concat(":").concat(
            device_id,
        );
        UiStep::Respond(self.respond(cmd, "M_UNKNOWN", message.as_str()))
    }

    /// The action of a command on a device, unless something is wrong with the user.
    fn on_device(&self, cmd: &UiToDaemon, problem: Option<String>, action: UiAction) -> (r: UiStep)
        requires
            names_user(*cmd),
            asks_for(self@, *cmd, action),
        ensures
            right_step(self@, *cmd, crate::client::sync::optional_text(problem), r),
    {
        match problem {
            None => UiStep::Act(action),
            Some(e) => UiStep::Respond(self.respond(cmd, "M_UNKNOWN", e.as_str())),
        }
    }

    /// What to do about a command.
    pub fn handle_ui_command(&mut self, cmd: &UiToDaemon) -> (r: UiStep)
        ensures
            right_step(old(self)@, *cmd, user_problem(*cmd), r),
            names_user(*cmd) && crate::ids::plain_user_id(device_of(*cmd).unwrap().0) ==> r is Act,
            final(self)@ == after_command(old(self)@, *cmd),
    {
        let problem = problem_with(cmd);
        self.command_step(cmd, problem)
    }

    /// What to do about a command, given what is wrong with the user that it names.
    pub fn command_step(&mut self, cmd: &UiToDaemon, problem: Option<String>) -> (r: UiStep)
        ensures
            right_step(old(self)@, *cmd, crate::client::sync::optional_text(problem), r),
            final(self)@ == after_command(old(self)@, *cmd),
    {
        match cmd {
            UiToDaemon::StartSas { user_id, device_id, .. } => {
                self.on_device(
                    cmd,
                    problem,
                    UiAction::StartSas { user_id: user_id.clone(), device_id: device_id.clone() },
                )
            },
            UiToDaemon::AcceptSas { user_id, device_id, .. } => {
                self.on_device(
                    cmd,
                    problem,
                    UiAction::AcceptSas { user_id: user_id.clone(), device_id: device_id.clone() },
                )
            },
            UiToDaemon::ConfirmSas { user_id, device_id, .. } => {
                match self.running_sas(user_id.as_str(), device_id.as_str()) {
                    Some(flow_id) => UiStep::Act(
                        UiAction::ConfirmSas {
                            user_id: user_id.clone(),
                            device_id: device_id.clone(),
                            flow_id,
                        },
                    ),
                    None => {
                        let message = "no active SAS with ".to_owned().concat(
                            user_id.as_str(),
                        ).concat(":").concat(device_id.as_str());
                        UiStep::Respond(self.respond(cmd, "M_UNKNOWN", message.as_str()))
                    },
                }
            },
            UiToDaemon::CancelSas { user_id, device_id, .. } => {
                let running = self.forget_sas(user_id.as_str(), device_id.as_str());
                UiStep::Act(
                    UiAction::CancelSas {
                        user_id: user_id.clone(),
                        device_id: device_id.clone(),
                        running,
                    },
                )
            },
            UiToDaemon::VerifyDevice { user_id, device_id, .. } => {
                self.on_device(
                    cmd,
                    problem,
                    UiAction::SetTrust {
                        user_id: user_id.clone(),
                        device_id: device_id.clone(),
                        trust: Trust::Verified,
                    },
                )
            },
            UiToDaemon::UnverifyDevice { user_id, device_id, .. } => {
                self.on_device(
                    cmd,
                    problem,
                    UiAction::SetTrust {
                        user_id: user_id.clone(),
                        device_id: device_id.clone(),
                        trust: Trust::Unset,
                    },
                )
            },
            UiToDaemon::BlacklistDevice { user_id, device_id, .. } => {
                self.on_device(
                    cmd,
                    problem,
                    UiAction::SetTrust {
                        user_id: user_id.clone(),
                        device_id: device_id.clone(),
                        trust: Trust::BlackListed,
                    },
                )
            },
            UiToDaemon::UnblacklistDevice { user_id, device_id, .. } => {
                self.on_device(
                    cmd,
                    problem,
                    UiAction::SetTrust {
                        user_id: user_id.clone(),
                        device_id: device_id.clone(),
                        trust: Trust::Unset,
                    },
                )
            },
            UiToDaemon::ImportKeys { file_path, passphrase, .. } => {
                UiStep::Act(
                    UiAction::ImportKeys {
                        file_path: file_path.clone(),
                        passphrase: passphrase.clone(),
                    },
                )
            },
            UiToDaemon::ExportKeys { file_path, passphrase, .. } => {
                UiStep::Act(
                    UiAction::ExportKeys {
                        file_path: file_path.clone(),
                        passphrase: passphrase.clone(),
                    },
                )
            },
            UiToDaemon::RecoverIdentity { key_input, .. } => {
                UiStep::Act(UiAction::RecoverIdentity { key_input: key_input.clone() })
            },
            UiToDaemon::ContinueKeyShare { user_id, device_id, .. } => {
                let wishes = self.take_key_wishes(user_id.as_str(), device_id.as_str());
                assert(crate::client::keys::wish_views(wishes@).len() == wishes@.len());
                if wishes.len() == 0 {
                    return self.no_wish(cmd, user_id.as_str(), device_id.as_str());
                }
                UiStep::Act(
                    UiAction::ForwardKeys {
                        user_id: user_id.clone(),
                        device_id: device_id.clone(),
                        wishes,
                    },
                )
            },
            UiToDaemon::CancelKeyShare { user_id, device_id, .. } => {
                let wishes = self.take_key_wishes(user_id.as_str(), device_id.as_str());
                assert(crate::client::keys::wish_views(wishes@).len() == wishes@.len());
                if wishes.len() == 0 {
                    return self.no_wish(cmd, user_id.as_str(), device_id.as_str());
                }
                UiStep::Act(
                    UiAction::RejectKeys {
                        user_id: user_id.clone(),
                        device_id: device_id.clone(),
                        wishes,
                    },
                )
            },
            UiToDaemon::SendAnyways { .. } => UiStep::Nothing,
            UiToDaemon::CancelSending { .. } => UiStep::Nothing,
        }
    }

    /// The answer to a command whose action went as stated.
    pub fn command_done(&self, cmd: &UiToDaemon, outcome: &Outcome) -> (r: DaemonToUi)
        requires
            possible(*cmd, *outcome),
        ensures
            r@ == answer(
                *cmd,
                self@.user_id,
                outcome_answer(*cmd, *outcome).0,
                outcome_answer(*cmd, *outcome).1,
            ),
    {
        match outcome {
            Outcome::Done => {
                let text = match cmd {
                    UiToDaemon::StartSas { .. } => "SAS request sent",
                    UiToDaemon::AcceptSas { .. } => "SAS accepted",
                    UiToDaemon::ConfirmSas { .. } => "SAS confirmed",
                    UiToDaemon::CancelSas { .. } => "SAS cancelled",
                    UiToDaemon::VerifyDevice { .. } => "Device verified",
                    UiToDaemon::UnverifyDevice { .. } => "Device unverified",
                    UiToDaemon::BlacklistDevice { .. } => "Device blacklisted",
                    UiToDaemon::UnblacklistDevice { .. } => "Device unblacklisted",
                    UiToDaemon::ImportKeys { .. } => "Keys imported",
                    UiToDaemon::ExportKeys { .. } => "Keys exported",
                    UiToDaemon::RecoverIdentity { .. } => "Identity recovered",
                    UiToDaemon::ContinueKeyShare { .. } => "Keys forwarded",
                    UiToDaemon::CancelKeyShare { .. } => "Key request rejected",
                    _ => "",
                };
                self.respond(cmd, "M_OK", text)
            },
            Outcome::NoDevice => match device_named(cmd) {
                Some((user_id, device_id)) => {
                    let message = "device ".to_owned().concat(device_id.as_str()).concat(
                        " not found for ",
                    ).concat(user_id.as_str());
                    self.respond(cmd, "M_UNKNOWN", message.as_str())
                },
                None => self.respond(cmd, "M_UNKNOWN", ""),
            },
            Outcome::NoRequest => match device_named(cmd) {
                Some((user_id, device_id)) => {
                    let message = "no pending verification request from ".to_owned().concat(
                        user_id.as_str(),
                    ).concat(":").concat(device_id.as_str());
                    self.respond(cmd, "M_UNKNOWN", message.as_str())
                },
                None => self.respond(cmd, "M_UNKNOWN", ""),
            },
            Outcome::Failed(e) => self.respond(cmd, "M_UNKNOWN", e.as_str()),
        }
    }
}

/// The answer to a command for a user who has no session.
pub fn no_session(cmd: &UiToDaemon) -> (r: DaemonToUi)
    ensures
        r@ == answer(
            *cmd,
            cmd.spec_pan_user(),
            "M_NOT_FOUND"@,
            "No session for that user \u{2014} log in through pantalaimon first"@,
        ),
{
    DaemonToUi::Response {
        message_id: cmd.message_id().to_owned(),
        pan_user: cmd.pan_user().to_owned(),
        code: "M_NOT_FOUND".to_owned(),
        message: "No session for that user \u{2014} log in through pantalaimon first".to_owned(),
    }
}

} // verus!
