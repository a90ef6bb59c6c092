//! Laws of the commands of the user interface.

use vstd::prelude::*;
use crate::client::commands::{no_session, Outcome, UiAction, UiStep};
use crate::client::devices::{describe_device, trust_state, DeviceFacts, Trust};
use crate::client::PanClient;
use crate::messages::{DaemonToUi, UiToDaemon};

verus! {

/// Whether a step sets how far a device is trusted.
pub open spec fn sets_trust(
    step: UiStep,
    user: Seq<char>,
    device: Seq<char>,
    level: Trust,
) -> bool {
    &&& step matches UiStep::Act(UiAction::SetTrust { user_id, device_id, trust })
    &&& user_id@ == user
    &&& device_id@ == device
    &&& trust == level
}

/// Whether a step answers a command at once, with a failure, under its identifier and for the
/// user of a session.
pub open spec fn refuses(
    step: UiStep,
    id: Seq<char>,
    pan: Seq<char>,
    why: Seq<char>,
) -> bool {
    &&& step matches UiStep::Respond(DaemonToUi::Response { message_id, pan_user, code, message })
    &&& message_id@ == id
    &&& pan_user@ == pan
    &&& code@ == "M_UNKNOWN"@
    &&& message@ == why
}

/// The device of a well-formed user is verified by `VerifyDevice`, put on the blacklist by
/// `BlacklistDevice`, and taken back to where nothing is decided by `UnverifyDevice` and
/// `UnblacklistDevice`; a command that names no user is refused with what is wrong.
pub proof fn trust_is_set(
    client: &mut PanClient,
    cmd: UiToDaemon,
    problem: Option<String>,
    r: UiStep,
)
    requires
        call_ensures(PanClient::command_step, (client, &cmd, problem), r),
    ensures
        problem is None ==> {
            &&& cmd matches UiToDaemon::VerifyDevice { user_id, device_id, .. } ==> sets_trust(
                r,
                user_id@,
                device_id@,
                Trust::Verified,
            )
            &&& cmd matches UiToDaemon::UnverifyDevice { user_id, device_id, .. } ==> sets_trust(
                r,
                user_id@,
                device_id@,
                Trust::Unset,
            )
            &&& cmd matches UiToDaemon::BlacklistDevice { user_id, device_id, .. } ==> sets_trust(
                r,
                user_id@,
                device_id@,
                Trust::BlackListed,
            )
            &&& cmd matches UiToDaemon::UnblacklistDevice { user_id, device_id, .. }
                ==> sets_trust(r, user_id@, device_id@, Trust::Unset)
        },
        problem matches Some(why) ==> {
            &&& cmd matches UiToDaemon::VerifyDevice { message_id, .. } ==> refuses(
                r,
                message_id@,
                old(client)@.user_id,
                why@,
            )
            &&& cmd matches UiToDaemon::UnverifyDevice { message_id, .. } ==> refuses(
                r,
                message_id@,
                old(client)@.user_id,
                why@,
            )
            &&& cmd matches UiToDaemon::BlacklistDevice { message_id, .. } ==> refuses(
                r,
                message_id@,
                old(client)@.user_id,
                why@,
            )
            &&& cmd matches UiToDaemon::UnblacklistDevice { message_id, .. } ==> refuses(
                r,
                message_id@,
                old(client)@.user_id,
                why@,
            )
        },
        r matches UiStep::Act(UiAction::SetTrust { .. }) ==> final(client)@ == old(client)@,
{
}

/// A command with the name of a plain user is never refused: it sets the level of trust that
/// it stands for.
pub proof fn trust_of_plain_users_is_set(client: &mut PanClient, cmd: UiToDaemon, r: UiStep)
    requires
        call_ensures(PanClient::handle_ui_command, (client, &cmd), r),
    ensures
        cmd matches UiToDaemon::VerifyDevice { user_id, device_id, .. } ==> (
        crate::ids::plain_user_id(user_id@) ==> sets_trust(
            r,
            user_id@,
            device_id@,
            Trust::Verified,
        )),
        cmd matches UiToDaemon::UnverifyDevice { user_id, device_id, .. } ==> (
        crate::ids::plain_user_id(user_id@) ==> sets_trust(
            r,
            user_id@,
            device_id@,
            Trust::Unset,
        )),
        cmd matches UiToDaemon::BlacklistDevice { user_id, device_id, .. } ==> (
        crate::ids::plain_user_id(user_id@) ==> sets_trust(
            r,
            user_id@,
            device_id@,
            Trust::BlackListed,
        )),
        cmd matches UiToDaemon::UnblacklistDevice { user_id, device_id, .. } ==> (
        crate::ids::plain_user_id(user_id@) ==> sets_trust(
            r,
            user_id@,
            device_id@,
            Trust::Unset,
        )),
{
}

/// A verification is asked for, accepted, confirmed and cancelled with the device that the
/// command names, and confirmed and cancelled under the flow that runs with it. Without one
/// there is nothing to confirm. Cancelling ends the verification, and no other.
pub proof fn verifications_are_commanded(
    client: &mut PanClient,
    cmd: UiToDaemon,
    problem: Option<String>,
    r: UiStep,
    other: Seq<char>,
)
    requires
        call_ensures(PanClient::command_step, (client, &cmd, problem), r),
    ensures
        cmd matches UiToDaemon::StartSas { user_id, device_id, message_id, .. } ==> match problem {
            None => r matches UiStep::Act(UiAction::StartSas { user_id: u, device_id: d }) && u@
                == user_id@ && d@ == device_id@,
            Some(why) => refuses(r, message_id@, old(client)@.user_id, why@),
        },
        cmd matches UiToDaemon::AcceptSas { user_id, device_id, message_id, .. } ==> match problem {
            None => r matches UiStep::Act(UiAction::AcceptSas { user_id: u, device_id: d }) && u@
                == user_id@ && d@ == device_id@,
            Some(why) => refuses(r, message_id@, old(client)@.user_id, why@),
        },
        cmd matches UiToDaemon::ConfirmSas { user_id, device_id, message_id, .. } ==> {
            let name = user_id@ + ":"@ + device_id@;
            if old(client)@.active_sas.contains_key(name) {
                &&& r matches UiStep::Act(
                    UiAction::ConfirmSas { user_id: u, device_id: d, flow_id },
                )
                &&& u@ == user_id@
                &&& d@ == device_id@
                &&& flow_id@ == old(client)@.active_sas[name]
            } else {
                refuses(
                    r,
                    message_id@,
                    old(client)@.user_id,
                    "no active SAS with "@ + user_id@ + ":"@ + device_id@,
                )
            }
        },
        cmd matches UiToDaemon::CancelSas { user_id, device_id, .. } ==> {
            let name = user_id@ + ":"@ + device_id@;
            &&& r matches UiStep::Act(UiAction::CancelSas { user_id: u, device_id: d, running })
            &&& u@ == user_id@
            &&& d@ == device_id@
            &&& running is Some <==> old(client)@.active_sas.contains_key(name)
            &&& running matches Some(flow) ==> flow@ == old(client)@.active_sas[name]
            &&& !final(client)@.active_sas.contains_key(name)
            &&& other != name ==> final(client)@.active_sas.contains_key(other) == old(
                client,
            )@.active_sas.contains_key(other)
        },
        !(cmd is CancelSas) ==> final(client)@.active_sas == old(client)@.active_sas,
        final(client)@.pending_requests == old(client)@.pending_requests,
        final(client)@.encrypted_rooms == old(client)@.encrypted_rooms,
        final(client)@.notified_show == old(client)@.notified_show,
        final(client)@.notified_invite == old(client)@.notified_invite,
        final(client)@.user_id == old(client)@.user_id,
{
}

/// Keys are read from and written to the file that the command names, with its passphrase; an
/// identity is restored with the key that it gives; and a decision about a message that waits
/// is left to the message.
pub proof fn keys_are_commanded(
    client: &mut PanClient,
    cmd: UiToDaemon,
    problem: Option<String>,
    r: UiStep,
)
    requires
        call_ensures(PanClient::command_step, (client, &cmd, problem), r),
    ensures
        cmd matches UiToDaemon::ImportKeys { file_path, passphrase, .. } ==> (
        r matches UiStep::Act(UiAction::ImportKeys { file_path: f, passphrase: p }) && f@
            == file_path@ && p@ == passphrase@),
        cmd matches UiToDaemon::ExportKeys { file_path, passphrase, .. } ==> (
        r matches UiStep::Act(UiAction::ExportKeys { file_path: f, passphrase: p }) && f@
            == file_path@ && p@ == passphrase@),
        cmd matches UiToDaemon::RecoverIdentity { key_input, .. } ==> (
        r matches UiStep::Act(UiAction::RecoverIdentity { key_input: k }) && k@ == key_input@),
        cmd is SendAnyways || cmd is CancelSending <==> r is Nothing,
{
}

/// Whether a list of requests for keys holds exactly those of a device that wait, in their
/// order.
pub open spec fn wishes_of_device(
    wishes: Seq<crate::client::keys::WishView>,
    user: Seq<char>,
    device: Seq<char>,
) -> Seq<crate::client::keys::WishView> {
    wishes.filter(
        |w: crate::client::keys::WishView| w.user_id == user && w.device_id == device,
    )
}

/// The requests of all other devices, in their order.
pub open spec fn wishes_of_all_others(
    wishes: Seq<crate::client::keys::WishView>,
    user: Seq<char>,
    device: Seq<char>,
) -> Seq<crate::client::keys::WishView> {
    wishes.filter(
        |w: crate::client::keys::WishView| !(w.user_id == user && w.device_id == device),
    )
}

/// The requests of a device, and of all others.
pub proof fn lemma_wishes(
    wishes: Seq<crate::client::keys::WishView>,
    user: Seq<char>,
    device: Seq<char>,
)
    ensures
        crate::client::keys::wishes_of(wishes, user, device) == wishes_of_device(
            wishes,
            user,
            device,
        ),
        crate::client::keys::wishes_of_others(wishes, user, device) == wishes_of_all_others(
            wishes,
            user,
            device,
        ),
    decreases wishes.len(),
{
    reveal(Seq::filter);
    if wishes.len() > 0 {
        lemma_wishes(wishes.drop_last(), user, device);
    }
}

/// The keys that a device asked for are forwarded or rejected as the command says: all
/// requests of that device, and those of no other, which wait on. Without one the command is
/// refused.
pub proof fn key_shares_are_commanded(
    client: &mut PanClient,
    cmd: UiToDaemon,
    problem: Option<String>,
    r: UiStep,
)
    requires
        call_ensures(PanClient::command_step, (client, &cmd, problem), r),
    ensures
        cmd matches UiToDaemon::ContinueKeyShare { user_id, device_id, message_id, .. } ==> {
            let wanted = wishes_of_device(old(client)@.key_wishes, user_id@, device_id@);
            &&& if wanted.len() > 0 {
                &&& r matches UiStep::Act(
                    UiAction::ForwardKeys { user_id: u, device_id: d, wishes },
                )
                &&& u@ == user_id@
                &&& d@ == device_id@
                &&& crate::client::keys::wish_views(wishes@) == wanted
            } else {
                refuses(
                    r,
                    message_id@,
                    old(client)@.user_id,
                    "no pending key request from "@ + user_id@ + ":"@ + device_id@,
                )
            }
            &&& final(client)@.key_wishes == wishes_of_all_others(
                old(client)@.key_wishes,
                user_id@,
                device_id@,
            )
        },
        cmd matches UiToDaemon::CancelKeyShare { user_id, device_id, message_id, .. } ==> {
            let wanted = wishes_of_device(old(client)@.key_wishes, user_id@, device_id@);
            &&& if wanted.len() > 0 {
                &&& r matches UiStep::Act(
                    UiAction::RejectKeys { user_id: u, device_id: d, wishes },
                )
                &&& u@ == user_id@
                &&& d@ == device_id@
                &&& crate::client::keys::wish_views(wishes@) == wanted
            } else {
                refuses(
                    r,
                    message_id@,
                    old(client)@.user_id,
                    "no pending key request from "@ + user_id@ + ":"@ + device_id@,
                )
            }
            &&& final(client)@.key_wishes == wishes_of_all_others(
                old(client)@.key_wishes,
                user_id@,
                device_id@,
            )
        },
        !(cmd is ContinueKeyShare) && !(cmd is CancelKeyShare) ==> final(client)@.key_wishes
            == old(client)@.key_wishes,
{
    match cmd {
        UiToDaemon::ContinueKeyShare { user_id, device_id, .. } => {
            lemma_wishes(old(client)@.key_wishes, user_id@, device_id@);
        },
        UiToDaemon::CancelKeyShare { user_id, device_id, .. } => {
            lemma_wishes(old(client)@.key_wishes, user_id@, device_id@);
        },
        _ => {},
    }
}

/// Whether a message is the answer to a command.
pub open spec fn answers(
    m: DaemonToUi,
    id: Seq<char>,
    pan: Seq<char>,
    code: Seq<char>,
    text: Seq<char>,
) -> bool {
    &&& m matches DaemonToUi::Response { message_id, pan_user, code: c, message }
    &&& message_id@ == id
    &&& pan_user@ == pan
    &&& c@ == code
    &&& message@ == text
}

/// What is said of a command that was carried out.
pub open spec fn done_text(cmd: UiToDaemon) -> Seq<char> {
    if cmd is StartSas {
        "SAS request sent"@
    } else if cmd is AcceptSas {
        "SAS accepted"@
    } else if cmd is ConfirmSas {
        "SAS confirmed"@
    } else if cmd is CancelSas {
        "SAS cancelled"@
    } else if cmd is VerifyDevice {
        "Device verified"@
    } else if cmd is UnverifyDevice {
        "Device unverified"@
    } else if cmd is BlacklistDevice {
        "Device blacklisted"@
    } else if cmd is UnblacklistDevice {
        "Device unblacklisted"@
    } else if cmd is ImportKeys {
        "Keys imported"@
    } else if cmd is ExportKeys {
        "Keys exported"@
    } else if cmd is RecoverIdentity {
        "Identity recovered"@
    } else if cmd is ContinueKeyShare {
        "Keys forwarded"@
    } else if cmd is CancelKeyShare {
        "Key request rejected"@
    } else {
        ""@
    }
}

/// The identifier and the user of a command.
pub open spec fn heads(cmd: UiToDaemon) -> (Seq<char>, Seq<char>) {
    match cmd {
        UiToDaemon::SendAnyways { message_id, pan_user, .. } => (message_id@, pan_user@),
        UiToDaemon::CancelSending { message_id, pan_user, .. } => (message_id@, pan_user@),
        UiToDaemon::VerifyDevice { message_id, pan_user, .. } => (message_id@, pan_user@),
        UiToDaemon::UnverifyDevice { message_id, pan_user, .. } => (message_id@, pan_user@),
        UiToDaemon::BlacklistDevice { message_id, pan_user, .. } => (message_id@, pan_user@),
        UiToDaemon::UnblacklistDevice { message_id, pan_user, .. } => (message_id@, pan_user@),
        UiToDaemon::ImportKeys { message_id, pan_user, .. } => (message_id@, pan_user@),
        UiToDaemon::ExportKeys { message_id, pan_user, .. } => (message_id@, pan_user@),
        UiToDaemon::StartSas { message_id, pan_user, .. } => (message_id@, pan_user@),
        UiToDaemon::CancelSas { message_id, pan_user, .. } => (message_id@, pan_user@),
        UiToDaemon::ConfirmSas { message_id, pan_user, .. } => (message_id@, pan_user@),
        UiToDaemon::AcceptSas { message_id, pan_user, .. } => (message_id@, pan_user@),
        UiToDaemon::ContinueKeyShare { message_id, pan_user, .. } => (message_id@, pan_user@),
        UiToDaemon::CancelKeyShare { message_id, pan_user, .. } => (message_id@, pan_user@),
        UiToDaemon::RecoverIdentity { message_id, pan_user, .. } => (message_id@, pan_user@),
    }
}

/// A command is answered under its own identifier and for the user of the session: with
/// `M_OK` and what was done where it was carried out, and else with `M_UNKNOWN` and what went
/// wrong. Where a device is missing, the answer names it and its user.
pub proof fn outcomes_are_answered(
    client: PanClient,
    cmd: UiToDaemon,
    outcome: Outcome,
    r: DaemonToUi,
)
    requires
        call_ensures(PanClient::command_done, (&client, &cmd, &outcome), r),
    ensures
        outcome is Done ==> answers(r, heads(cmd).0, client@.user_id, "M_OK"@, done_text(cmd)),
        outcome matches Outcome::Failed(why) ==> answers(
            r,
            heads(cmd).0,
            client@.user_id,
            "M_UNKNOWN"@,
            why@,
        ),
        outcome is NoDevice ==> (cmd matches UiToDaemon::VerifyDevice {
            user_id,
            device_id,
            ..
        } ==> answers(
            r,
            heads(cmd).0,
            client@.user_id,
            "M_UNKNOWN"@,
            "device "@ + device_id@ + " not found for "@ + user_id@,
        )),
        outcome is NoDevice ==> (cmd matches UiToDaemon::StartSas {
            user_id,
            device_id,
            ..
        } ==> answers(
            r,
            heads(cmd).0,
            client@.user_id,
            "M_UNKNOWN"@,
            "device "@ + device_id@ + " not found for "@ + user_id@,
        )),
        outcome is NoDevice ==> (cmd matches UiToDaemon::BlacklistDevice {
            user_id,
            device_id,
            ..
        } ==> answers(
            r,
            heads(cmd).0,
            client@.user_id,
            "M_UNKNOWN"@,
            "device "@ + device_id@ + " not found for "@ + user_id@,
        )),
        outcome is NoRequest ==> (cmd matches UiToDaemon::AcceptSas {
            user_id,
            device_id,
            ..
        } ==> answers(
            r,
            heads(cmd).0,
            client@.user_id,
            "M_UNKNOWN"@,
            "no pending verification request from "@ + user_id@ + ":"@ + device_id@,
        )),
{
}

/// A command for a user who has no session is answered with `M_NOT_FOUND`, under its own
/// identifier and for that user.
pub proof fn strangers_are_answered(cmd: UiToDaemon, r: DaemonToUi)
    requires
        call_ensures(no_session, (&cmd,), r),
    ensures
        r matches DaemonToUi::Response { message_id, pan_user, code, .. } && message_id@ == heads(
            cmd,
        ).0 && pan_user@ == heads(cmd).1 && code@ == "M_NOT_FOUND"@,
{
}

/// The user and the identifier of a command are those that it was made with.
pub proof fn commands_know_their_user(cmd: UiToDaemon, user: &str, id: &str)
    requires
        call_ensures(UiToDaemon::pan_user, (&cmd,), user),
        call_ensures(UiToDaemon::message_id, (&cmd,), id),
    ensures
        user@ == heads(cmd).1,
        id@ == heads(cmd).0,
{
}

/// How far a device is trusted is told in a word of its own: one that was put on the blacklist
/// is called `blacklisted` and never `verified`, and only one that was verified is called that.
pub proof fn trust_is_told(trust: Trust, cross_signed: bool, r: &'static str)
    requires
        call_ensures(trust_state, (trust, cross_signed), r),
    ensures
        r@ == "verified"@ <==> trust == Trust::Verified,
        r@ == "blacklisted"@ <==> trust == Trust::BlackListed,
        r@ == "ignored"@ <==> trust == Trust::Ignored,
        r@ == "cross-signing-verified"@ <==> trust == Trust::Unset && cross_signed,
        r@ == "unset"@ <==> trust == Trust::Unset && !cross_signed,
{
    lemma_words();
}

/// The words for trust differ.
proof fn lemma_words()
    ensures
        "verified"@ != "blacklisted"@,
        "verified"@ != "ignored"@,
        "verified"@ != "cross-signing-verified"@,
        "verified"@ != "unset"@,
        "blacklisted"@ != "ignored"@,
        "blacklisted"@ != "cross-signing-verified"@,
        "blacklisted"@ != "unset"@,
        "ignored"@ != "cross-signing-verified"@,
        "ignored"@ != "unset"@,
        "cross-signing-verified"@ != "unset"@,
{
    reveal_strlit("verified");
    reveal_strlit("blacklisted");
    reveal_strlit("ignored");
    reveal_strlit("cross-signing-verified");
    reveal_strlit("unset");
    assert("verified"@.len() == 8 && "blacklisted"@.len() == 11 && "ignored"@.len() == 7
        && "cross-signing-verified"@.len() == 22 && "unset"@.len() == 5);
}

/// Whether a row has a text under a name.
pub open spec fn row_has(row: Seq<(String, String)>, name: Seq<char>, value: Seq<char>) -> bool {
    exists|i: int| 0 <= i < row.len() && (#[trigger] row[i]).0@ == name && row[i].1@ == value
}

/// A device is described by its user, its identifier, its name, its key and how far it is
/// trusted, each under its own name: one that was put on the blacklist is listed as
/// `blacklisted`, and as nothing else.
pub proof fn devices_are_described(d: DeviceFacts, r: Vec<(String, String)>)
    requires
        call_ensures(describe_device, (&d,), r),
    ensures
        r@.len() == 5,
        row_has(r@, "user_id"@, d.user_id@),
        row_has(r@, "device_id"@, d.device_id@),
        d.display_name matches Some(n) ==> row_has(r@, "device_display_name"@, n@),
        d.display_name is None ==> row_has(r@, "device_display_name"@, ""@),
        d.ed25519 matches Some(k) ==> row_has(r@, "ed25519"@, k@),
        d.ed25519 is None ==> row_has(r@, "ed25519"@, ""@),
        d.trust == Trust::Verified <==> row_has(r@, "trust_state"@, "verified"@),
        d.trust == Trust::BlackListed <==> row_has(r@, "trust_state"@, "blacklisted"@),
        d.trust == Trust::Ignored <==> row_has(r@, "trust_state"@, "ignored"@),
        d.trust == Trust::Unset && d.cross_signed <==> row_has(
            r@,
            "trust_state"@,
            "cross-signing-verified"@,
        ),
        d.trust == Trust::Unset && !d.cross_signed <==> row_has(r@, "trust_state"@, "unset"@),
{
    lemma_words();
    let views = crate::messages::pair_views(r@);
    assert(views.len() == r@.len());
    assert(views[0] == (r@[0].0@, r@[0].1@));
    assert(views[1] == (r@[1].0@, r@[1].1@));
    assert(views[2] == (r@[2].0@, r@[2].1@));
    assert(views[3] == (r@[3].0@, r@[3].1@));
    assert(views[4] == (r@[4].0@, r@[4].1@));
    reveal_strlit("user_id");
    reveal_strlit("device_id");
    reveal_strlit("device_display_name");
    reveal_strlit("ed25519");
    reveal_strlit("trust_state");
    assert("user_id"@[0] == 'u' && "device_id"@[0] == 'd' && "device_display_name"@[0] == 'd'
        && "ed25519"@[0] == 'e' && "trust_state"@[0] == 't');
    assert(r@[0].0@ == "user_id"@ && r@[1].0@ == "device_id"@ && r@[2].0@
        == "device_display_name"@ && r@[3].0@ == "ed25519"@ && r@[4].0@ == "trust_state"@);
    assert forall|value: Seq<char>| #[trigger] row_has(r@, "trust_state"@, value) implies value
        == r@[4].1@ by {
        let i = choose|i: int|
            0 <= i < r@.len() && (#[trigger] r@[i]).0@ == "trust_state"@ && r@[i].1@ == value;
        assert(i == 4);
    }
    assert(row_has(r@, "trust_state"@, r@[4].1@));
    assert(row_has(r@, "user_id"@, r@[0].1@));
    assert(row_has(r@, "device_id"@, r@[1].1@));
    assert(row_has(r@, "device_display_name"@, r@[2].1@));
    assert(row_has(r@, "ed25519"@, r@[3].1@));
}

/// All devices of a user are listed, each in its place; none where there can be no such user.
pub proof fn all_devices_are_listed(
    user: &str,
    devices: Vec<DeviceFacts>,
    r: Vec<Vec<(String, String)>>,
    i: int,
)
    requires
        call_ensures(PanClient::list_user_devices, (user, &devices), r),
        0 <= i < devices@.len(),
    ensures
        crate::ids::user_id_valid(user@) ==> {
            &&& r@.len() == devices@.len()
            &&& row_has(r@[i]@, "user_id"@, devices@[i].user_id@)
            &&& row_has(r@[i]@, "device_id"@, devices@[i].device_id@)
            &&& devices@[i].trust == Trust::BlackListed ==> row_has(
                r@[i]@,
                "trust_state"@,
                "blacklisted"@,
            )
            &&& devices@[i].trust == Trust::Verified ==> row_has(
                r@[i]@,
                "trust_state"@,
                "verified"@,
            )
        },
        !crate::ids::user_id_valid(user@) ==> r@.len() == 0,
{
    let rows = crate::client::devices::row_views(r@);
    assert(rows.len() == r@.len());
    if crate::ids::user_id_valid(user@) {
        let d = crate::client::devices::device_views(devices@)[i];
        assert(d == devices@[i]@);
        assert(rows[i] == crate::messages::pair_views(r@[i]@));
        assert(rows[i] == crate::client::devices::device_row(d));
        let row = r@[i]@;
        let views = crate::messages::pair_views(row);
        assert(views.len() == row.len());
        assert(views[0] == (row[0].0@, row[0].1@));
        assert(views[1] == (row[1].0@, row[1].1@));
        assert(views[4] == (row[4].0@, row[4].1@));
        assert(row[0].0@ == "user_id"@ && row[1].0@ == "device_id"@ && row[4].0@
            == "trust_state"@);
    }
}

/// Each device of a user is listed as it is described on its own.
pub proof fn devices_are_listed_as_described(
    user: &str,
    devices: Vec<DeviceFacts>,
    r: Vec<Vec<(String, String)>>,
    i: int,
    row: Vec<(String, String)>,
)
    requires
        call_ensures(PanClient::list_user_devices, (user, &devices), r),
        0 <= i < devices@.len(),
        call_ensures(describe_device, (&devices@[i],), row),
        crate::ids::user_id_valid(user@),
    ensures
        r@.len() == devices@.len(),
        r@[i]@.map_values(|p: (String, String)| (p.0@, p.1@)) == row@.map_values(
            |p: (String, String)| (p.0@, p.1@),
        ),
{
    let rows = crate::client::devices::row_views(r@);
    assert(rows.len() == r@.len());
    let d = crate::client::devices::device_views(devices@)[i];
    assert(d == devices@[i]@);
    assert(rows[i] == crate::messages::pair_views(r@[i]@));
    assert(rows[i] == crate::client::devices::device_row(d));
}

} // verus!
