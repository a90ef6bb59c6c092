//! Messages on their way to a room: whether they are encrypted, what holds them up, and
//! in which form they leave.

use vstd::prelude::*;
use crate::client::devices::{blocking_devices, DeviceFacts};
use crate::client::requests::members_in;
use crate::client::PanClient;
use crate::error::AppError;
use crate::ids::is_room_id;
use crate::json::Json;
use crate::messages::{DaemonToUi, UiToDaemon};
use crate::proxy::daemon::ProxyDaemon;
use crate::proxy::routes::extract_token;
use crate::store::PanStore;
use crate::text::{replaced_last_but_one, same};
use crate::wire::{
    copy_bytes, forwarded_headers, text_bytes, upstream_url, ClientRequest, UpstreamRequest,
};

verus! {

/// How long a message that is held up waits for a decision, in seconds.
pub const DECISION_SECONDS: u64 = 30;

/// What to do about a message at first.
#[derive(Debug)]
pub enum SendPlan {
    /// It has no token: it leaves as it came.
    Plain(UpstreamRequest),
    /// It belongs to the session of a token, if there is one.
    Session { token: String },
}

/// A message as it came.
pub open spec fn plain_message(
    d: crate::proxy::daemon::DaemonView,
    req: ClientRequest,
) -> crate::wire::UpstreamView {
    req.to_upstream(d.server.homeserver, "PUT"@, false, Some(req.body@))
}

/// A query with its question mark.
pub open spec fn query_suffix(query: Option<String>) -> Seq<char> {
    match query {
        Some(q) => "?"@ + q@,
        None => ""@,
    }
}

/// A message encrypted: its type, the last segment but one of the path, gives way to the
/// encrypted one, and its body is framed anew.
pub open spec fn encrypted_message(
    d: crate::proxy::daemon::DaemonView,
    req: ClientRequest,
    encrypted: crate::json::JsonView,
) -> crate::wire::UpstreamView {
    crate::wire::UpstreamView {
        method: "PUT"@,
        url: crate::wire::base_of(d.server.homeserver) + crate::text::replace_last_but_one(
            req.path@,
            '/',
            "m.room.encrypted"@,
        ) + query_suffix(req.query),
        headers: crate::wire::forwarded(crate::wire::header_views(req.headers@), true),
        body: Some(vstd::utf8::encode_utf8(crate::json::encoded(encrypted))),
    }
}

/// Whatever its type and however that is written, an encrypted message goes to the same room
/// under the same transaction, as an encrypted one.
pub proof fn type_gives_way(
    d: crate::proxy::daemon::DaemonView,
    req: ClientRequest,
    encrypted: crate::json::JsonView,
    head: Seq<char>,
    event_type: Seq<char>,
    txn: Seq<char>,
)
    requires
        !event_type.contains('/'),
        !txn.contains('/'),
        req.path@ == head.push('/') + event_type.push('/') + txn,
    ensures
        encrypted_message(d, req, encrypted).url == crate::wire::base_of(d.server.homeserver) + (
        head.push('/') + "m.room.encrypted"@.push('/') + txn) + query_suffix(req.query),
{
    crate::text::piece_replaced(head, event_type, txn, '/', "m.room.encrypted"@);
}

/// What to do about a message at first: one without a token leaves as it came.
pub fn send_message(daemon: &ProxyDaemon, req: &ClientRequest) -> (r: SendPlan)
    ensures
        match r {
            SendPlan::Plain(u) => crate::proxy::routes::token_of(*req) is None && u@
                == plain_message(daemon@, *req),
            SendPlan::Session { token } => crate::proxy::routes::token_of(*req) == Some(token@),
        },
{
    match extract_token(req) {
        Some(token) => SendPlan::Session { token },
        None => SendPlan::Plain(plain_send(daemon, req)),
    }
}

/// A message as it came.
pub fn plain_send(daemon: &ProxyDaemon, req: &ClientRequest) -> (r: UpstreamRequest)
    ensures
        r@ == plain_message(daemon@, *req),
{
    req.upstream(
        daemon.config().homeserver.as_str(),
        "PUT",
        false,
        Some(copy_bytes(&req.body)),
    )
}

/// What to do about a message with a token.
#[derive(Debug)]
pub enum SendStart {
    /// It leaves as it came.
    Plain(UpstreamRequest),
    /// The session of a user takes it through its stages.
    Session { user_id: String },
}

/// What to do about a message with a token, given the user whose session the token belongs
/// to, if there is one: without a session it leaves as it came.
pub fn send_resolved(daemon: &ProxyDaemon, req: &ClientRequest, session: Option<String>) -> (r:
    SendStart)
    ensures
        match r {
            SendStart::Plain(u) => session is None && u@ == plain_message(daemon@, *req),
            SendStart::Session { user_id } => crate::client::sync::optional_text(session) == Some(
                user_id@,
            ),
        },
{
    match session {
        Some(user_id) => SendStart::Session { user_id },
        None => SendStart::Plain(plain_send(daemon, req)),
    }
}

/// A message encrypted.
pub fn encrypted_send(daemon: &ProxyDaemon, req: &ClientRequest, encrypted: Json) -> (r:
    UpstreamRequest)
    ensures
        r@ == encrypted_message(daemon@, *req, encrypted@),
        r@.body matches Some(b) && crate::json::reads_as(b, encrypted@),
{
    let path = replaced_last_but_one(req.path.as_str(), '/', "m.room.encrypted");
    let suffix = match &req.query {
        Some(q) => "?".to_owned().concat(q.as_str()),
        None => "".to_owned(),
    };
    let url = upstream_url(daemon.config().homeserver.as_str(), path.as_str()).concat(
        suffix.as_str(),
    );
    let text = encrypted.write();
    UpstreamRequest {
        method: "PUT".to_owned(),
        url,
        headers: forwarded_headers(&req.headers, true),
        body: Some(text_bytes(text.as_str())),
    }
}

/// What a user decides about a message that is held up.
#[derive(Debug, Clone, Copy, PartialEq, Eq, Structural)]
pub enum Decision {
    SendAnyways,
    Cancel,
    /// Nothing in time.
    Timeout,
}

/// The decision that a command states about the message of a user to a room.
pub open spec fn decision_in(cmd: UiToDaemon, user: Seq<char>, room: Seq<char>) -> Option<Decision> {
    match cmd {
        UiToDaemon::SendAnyways { pan_user, room_id, .. } => if pan_user@ == user && room_id@
            == room {
            Some(Decision::SendAnyways)
        } else {
            None
        },
        UiToDaemon::CancelSending { pan_user, room_id, .. } => if pan_user@ == user && room_id@
            == room {
            Some(Decision::Cancel)
        } else {
            None
        },
        _ => None,
    }
}

/// The decision that a command states about the message of a user to a room.
pub fn decision_of(cmd: &UiToDaemon, user: &str, room: &str) -> (r: Option<Decision>)
    ensures
        r == decision_in(*cmd, user@, room@),
{
    match cmd {
        UiToDaemon::SendAnyways { pan_user, room_id, .. } => if same(pan_user.as_str(), user)
            && same(room_id.as_str(), room) {
            Some(Decision::SendAnyways)
        } else {
            None
        },
        UiToDaemon::CancelSending { pan_user, room_id, .. } => if same(pan_user.as_str(), user)
            && same(room_id.as_str(), room) {
            Some(Decision::Cancel)
        } else {
            None
        },
        _ => None,
    }
}

/// How far a message of a session has come.
#[derive(Debug)]
pub enum Stage {
    /// Nothing was done yet.
    Fresh,
    /// The homeserver was asked whether the room is encrypted.
    AskedRoom,
    /// The homeserver was asked who is in the room.
    AskedMembers { content: Json },
    /// The crypto machine was asked for the devices of the members.
    AskedDevices { content: Json, members: Vec<String> },
    /// The user was asked what to do about devices.
    Waiting { content: Json, members: Vec<String>, blocking: Vec<(String, String)> },
    /// The crypto machine was asked to encrypt.
    Encrypting,
    /// All is done.
    Finished,
}

/// What happened.
#[derive(Debug)]
pub enum SendEvent {
    /// The message came.
    Begin,
    /// The homeserver has said whether the room is encrypted: a status, unless it could not
    /// be reached.
    RoomAnswered(Option<u16>),
    /// The homeserver has said who is in the room: the body of its answer, unless it could
    /// not be reached.
    Members(Option<Vec<u8>>),
    /// The devices of the members.
    Devices(Vec<DeviceFacts>),
    /// What the user decided.
    Decided(Decision),
    /// The encrypted content, unless encrypting failed.
    Encrypted(Option<Json>),
}

/// What to do next.
#[derive(Debug)]
pub enum SendAction {
    /// Ask the homeserver whether the room is encrypted.
    AskRoom(UpstreamRequest),
    /// Ask the homeserver who is in the room.
    AskMembers(UpstreamRequest),
    /// Ask the crypto machine for the devices of the members.
    ListDevices(Vec<String>),
    /// Ask the user what to do about devices.
    AskUser(DaemonToUi),
    /// Encrypt for the members, after the given devices were marked as ignored.
    Encrypt { content: Json, members: Vec<String>, ignore: Vec<(String, String)> },
    /// Send the message as it came.
    SendPlain,
    /// Send the encrypted content.
    SendEncrypted(Json),
    /// Tell the client that the message was not sent.
    Refuse(AppError),
}

/// What is said of a message that was cancelled.
pub open spec fn cancelled_text() -> Seq<char> {
    "sending was cancelled: the room has unverified devices"@
}

/// What is said of a message about which nothing was decided in time.
pub open spec fn undecided_text() -> Seq<char> {
    "sending was not confirmed in time: the room has unverified devices"@
}

/// What is said when something happens out of turn.
pub open spec fn out_of_turn_text() -> Seq<char> {
    "sending was interrupted"@
}

/// Whether a message is refused with a text.
pub open spec fn refused(action: SendAction, text: Seq<char>) -> bool {
    action matches SendAction::Refuse(AppError::Internal(t)) && t@ == text
}

/// A content that can be encrypted, with the keys of its media, for a room that can be one.
pub open spec fn prepared_content(
    c: crate::client::ClientView,
    s: crate::store::StoreView,
    room: Seq<char>,
    content: crate::json::JsonView,
) -> Option<crate::json::JsonView> {
    match crate::client::media::with_media_keys(c, s, room, content) {
        Ok(new) => if crate::ids::room_id_valid(room) {
            Some(new)
        } else {
            None
        },
        Err(_) => None,
    }
}

/// The content of a message that can be encrypted, out of a body that is JSON.
pub open spec fn prepared(
    c: crate::client::ClientView,
    s: crate::store::StoreView,
    room: Seq<char>,
    body: Seq<u8>,
) -> Option<crate::json::JsonView> {
    match crate::json::decoded(body) {
        Some(content) => prepared_content(c, s, room, content),
        None => None,
    }
}

/// What a list of members means.
pub open spec fn member_views(members: Seq<String>) -> Seq<Seq<char>> {
    members.map_values(|m: String| m@)
}

/// Whether encrypting begins for a content, members and devices to be ignored.
pub open spec fn encrypts(
    action: SendAction,
    content: crate::json::JsonView,
    members: Seq<Seq<char>>,
    ignore: Seq<(Seq<char>, Seq<char>)>,
) -> bool {
    &&& action matches SendAction::Encrypt { content: c, members: m, ignore: i }
    &&& c@ == content
    &&& member_views(m@) == members
    &&& crate::messages::pair_views(i@) == ignore
}

/// What follows once a room is known to be encrypted, given the prepared content.
pub open spec fn next_given(
    c: crate::client::ClientView,
    room: Seq<char>,
    content: Option<crate::json::JsonView>,
    stage: Stage,
    action: SendAction,
) -> bool {
    match content {
        Some(content) => {
            &&& stage matches Stage::AskedMembers { content: kept }
            &&& kept@ == content
            &&& action matches SendAction::AskMembers(u)
            &&& u@ == crate::client::requests::session_get(
                c,
                "/_matrix/client/v3/rooms/"@ + room + "/joined_members"@,
            )
        },
        None => stage is Finished && action is SendPlain,
    }
}

/// What follows once a room is known to be encrypted.
pub open spec fn next_prepared(
    c: crate::client::ClientView,
    s: crate::store::StoreView,
    room: Seq<char>,
    body: Seq<u8>,
    stage: Stage,
    action: SendAction,
) -> bool {
    next_given(c, room, prepared(c, s, room, body), stage, action)
}

/// Those who have joined a room, as an answer states them: an object whose keys are user
/// identifiers.
pub open spec fn joined_users(answer: Option<Vec<u8>>) -> Option<crate::json::JsonView> {
    match answer {
        Some(body) => match crate::client::requests::joined_in(body@) {
            Some(j) => if j is Object && crate::client::requests::all_users(j) {
                Some(j)
            } else {
                None
            },
            None => None,
        },
        None => None,
    }
}

/// Whether a stage and an action are what follows an event.
pub open spec fn right_next(
    c: crate::client::ClientView,
    s: crate::store::StoreView,
    room: Seq<char>,
    body: Seq<u8>,
    before: Stage,
    event: SendEvent,
    after: Stage,
    action: SendAction,
) -> bool {
    match (before, event) {
        (Stage::Fresh, SendEvent::Begin) => if c.encrypted_rooms.contains(room) {
            next_prepared(c, s, room, body, after, action)
        } else {
            &&& after is AskedRoom
            &&& action matches SendAction::AskRoom(u)
            &&& u@ == crate::client::requests::session_get(
                c,
                "/_matrix/client/v3/rooms/"@ + room + "/state/m.room.encryption"@,
            )
        },
        (Stage::AskedRoom, SendEvent::RoomAnswered(status)) => if says_encrypted(status) {
            next_prepared(marked(c, room), s, room, body, after, action)
        } else {
            after is Finished && action is SendPlain
        },
        (Stage::AskedMembers { content }, SendEvent::Members(answer)) => match joined_users(answer) {
            Some(users) => if c.server.ignore_verification {
                &&& after is Encrypting
                &&& action matches SendAction::Encrypt { members: m, .. }
                &&& crate::client::requests::lists_keys(m@, users)
                &&& encrypts(action, content@, member_views(m@), Seq::empty())
            } else {
                &&& after matches Stage::AskedDevices { content: kept, members: m }
                &&& kept@ == content@
                &&& crate::client::requests::lists_keys(m@, users)
                &&& action matches SendAction::ListDevices(l)
                &&& member_views(l@) == member_views(m@)
            },
            None => after is Finished && action is SendPlain,
        },
        (Stage::AskedDevices { content, members }, SendEvent::Devices(devices)) => {
            let blocking = crate::client::devices::blocking(
                c.user_id,
                crate::client::devices::device_views(devices@),
            );
            if blocking.len() == 0 {
                &&& after is Encrypting
                &&& encrypts(action, content@, member_views(members@), Seq::empty())
            } else {
                &&& after matches Stage::Waiting { content: kept, members: n, blocking: b }
                &&& kept@ == content@
                &&& member_views(n@) == member_views(members@)
                &&& crate::messages::pair_views(b@) == blocking
                &&& action matches SendAction::AskUser(m)
                &&& m@ == (crate::messages::UiView::UnverifiedDevices {
                    pan_user: c.user_id,
                    room_id: room,
                    room_display_name: room,
                })
            }
        },
        (Stage::Waiting { content, members, blocking }, SendEvent::Decided(decision)) => {
            match decision {
                Decision::SendAnyways => {
                    &&& after is Encrypting
                    &&& encrypts(
                        action,
                        content@,
                        member_views(members@),
                        crate::messages::pair_views(blocking@),
                    )
                },
                Decision::Cancel => after is Finished && refused(action, cancelled_text()),
                Decision::Timeout => after is Finished && refused(action, undecided_text()),
            }
        },
        (Stage::Encrypting, SendEvent::Encrypted(result)) => match result {
            Some(j) => {
                &&& after is Finished
                &&& action matches SendAction::SendEncrypted(e)
                &&& e@ == j@
            },
            None => after is Finished && action is SendPlain,
        },
        _ => after is Finished && refused(action, out_of_turn_text()),
    }
}

/// Whether a status says that a room is encrypted.
pub open spec fn says_encrypted(status: Option<u16>) -> bool {
    status matches Some(s) && crate::wire::is_success(s as nat)
}

/// A session that knows a room to be encrypted.
pub open spec fn marked(c: crate::client::ClientView, room: Seq<char>) -> crate::client::ClientView {
    crate::client::ClientView { encrypted_rooms: c.encrypted_rooms.insert(room), ..c }
}

/// What a session knows after an event: that the room is encrypted, where the homeserver
/// has said so.
pub open spec fn after_event(
    c: crate::client::ClientView,
    room: Seq<char>,
    before: Stage,
    event: SendEvent,
) -> crate::client::ClientView {
    match (before, event) {
        (Stage::AskedRoom, SendEvent::RoomAnswered(status)) => if says_encrypted(status) {
            marked(c, room)
        } else {
            c
        },
        _ => c,
    }
}

/// A message of a session, with how far it has come.
#[derive(Debug)]
pub struct Sending {
    pub room_id: String,
    pub event_type: String,
    pub stage: Stage,
}

impl Sending {
    /// A message that has just come.
    pub fn new(room_id: String, event_type: String) -> (r: Sending)
        ensures
            r.room_id@ == room_id@,
            r.event_type@ == event_type@,
            r.stage is Fresh,
    {
        Sending { room_id, event_type, stage: Stage::Fresh }
    }

    /// Prepares a content for a room that is encrypted: the keys of its media are put in, and
    /// the members of the room are asked for. It leaves as it came where that cannot be.
    pub fn prepare_content(client: &PanClient, store: &PanStore, room_id: &str, content: Json) -> (r: (
        Stage,
        SendAction,
    ))
        requires
            store.wf(),
        ensures
            next_given(
                client@,
                room_id@,
                prepared_content(client@, store@, room_id@, content@),
                r.0,
                r.1,
            ),
    {
        let mut content = content;
        match client.inject_media_keys(store, room_id, &mut content) {
            Ok(()) => if is_room_id(room_id) {
                let action = SendAction::AskMembers(client.members_request(room_id));
                (Stage::AskedMembers { content }, action)
            } else {
                (Stage::Finished, SendAction::SendPlain)
            },
            Err(_) => (Stage::Finished, SendAction::SendPlain),
        }
    }

    /// Prepares the body of a message to a room that is encrypted.
    fn prepare(client: &PanClient, store: &PanStore, room_id: &str, body: &Vec<u8>) -> (r: (
        Stage,
        SendAction,
    ))
        requires
            store.wf(),
        ensures
            next_prepared(client@, store@, room_id@, body@, r.0, r.1),
    {
        match Json::parse(body.as_slice()) {
            Some(content) => Sending::prepare_content(client, store, room_id, content),
            None => (Stage::Finished, SendAction::SendPlain),
        }
    }

    /// Takes an event and says what to do next.
    pub fn step(
        self,
        client: &mut PanClient,
        store: &PanStore,
        body: &Vec<u8>,
        event: SendEvent,
    ) -> (r: (Sending, SendAction))
        requires
            store.wf(),
        ensures
            r.0.room_id@ == self.room_id@,
            r.0.event_type@ == self.event_type@,
            right_next(
                old(client)@,
                store@,
                self.room_id@,
                body@,
                self.stage,
                event,
                r.0.stage,
                r.1,
            ),
            final(client)@ == after_event(old(client)@, self.room_id@, self.stage, event),
    {
        let Sending { room_id, event_type, stage } = self;
        let ghost stage_before = stage;
        let (stage, action) = match (stage, event) {
            (Stage::Fresh, SendEvent::Begin) => {
                if client.is_room_encrypted(room_id.as_str()) {
                    Sending::prepare(client, store, room_id.as_str(), body)
                } else {
                    let request = client.encryption_request(room_id.as_str());
                    (Stage::AskedRoom, SendAction::AskRoom(request))
                }
            },
            (Stage::AskedRoom, SendEvent::RoomAnswered(status)) => {
                let encrypted = match status {
                    Some(s) => 200 <= s && s < 300,
                    None => false,
                };
                if encrypted {
                    client.mark_room_encrypted(room_id.as_str());
                    Sending::prepare(client, store, room_id.as_str(), body)
                } else {
                    (Stage::Finished, SendAction::SendPlain)
                }
            },
            (Stage::AskedMembers { content }, SendEvent::Members(answer)) => match read_members(
                &answer,
            ) {
                Some(members) => if client.ignores_verification() {
                    let ignore: Vec<(String, String)> = Vec::new();
                    assert(crate::messages::pair_views(ignore@) =~= Seq::empty());
                    (Stage::Encrypting, SendAction::Encrypt { content, members, ignore })
                } else {
                    let list = copy_members(&members);
                    (Stage::AskedDevices { content, members }, SendAction::ListDevices(list))
                },
                None => (Stage::Finished, SendAction::SendPlain),
            },
            (Stage::AskedDevices { content, members }, SendEvent::Devices(devices)) => {
                let blocking = blocking_devices(client.user(), &devices);
                assert(crate::messages::pair_views(blocking@).len() == blocking@.len());
                if blocking.len() == 0 {
                    assert(crate::messages::pair_views(blocking@) =~= Seq::empty());
                    (Stage::Encrypting, SendAction::Encrypt { content, members, ignore: blocking })
                } else {
                    let message = DaemonToUi::UnverifiedDevices {
                        pan_user: client.user().to_owned(),
                        room_id: room_id.clone(),
                        room_display_name: room_id.clone(),
                    };
                    (
                        Stage::Waiting { content, members, blocking },
                        SendAction::AskUser(message),
                    )
                }
            },
            (Stage::Waiting { content, members, blocking }, SendEvent::Decided(decision)) => {
                match decision {
                    Decision::SendAnyways => (
                        Stage::Encrypting,
                        SendAction::Encrypt { content, members, ignore: blocking },
                    ),
                    Decision::Cancel => (
                        Stage::Finished,
                        refuse("sending was cancelled: the room has unverified devices"),
                    ),
                    Decision::Timeout => (
                        Stage::Finished,
                        refuse("sending was not confirmed in time: the room has unverified devices"),
                    ),
                }
            },
            (Stage::Encrypting, SendEvent::Encrypted(result)) => match result {
                Some(encrypted) => (Stage::Finished, SendAction::SendEncrypted(encrypted)),
                None => (Stage::Finished, SendAction::SendPlain),
            },
            _ => (Stage::Finished, refuse("sending was interrupted")),
        };
        (Sending { room_id, event_type, stage }, action)
    }
}

/// The users whom an answer about the members of a room states.
fn read_members(answer: &Option<Vec<u8>>) -> (r: Option<Vec<String>>)
    ensures
        r is Some <==> joined_users(*answer) is Some,
        r matches Some(m) ==> crate::client::requests::lists_keys(
            m@,
            joined_users(*answer).unwrap(),
        ),
{
    match answer {
        Some(body) => members_in(body),
        None => None,
    }
}

/// Tells the client that a message was not sent.
fn refuse(text: &str) -> (r: SendAction)
    ensures
        refused(r, text@),
{
    SendAction::Refuse(AppError::Internal(text.to_owned()))
}

/// A copy of a list of members.
fn copy_members(members: &Vec<String>) -> (r: Vec<String>)
    ensures
        member_views(r@) == member_views(members@),
{
    let mut out: Vec<String> = Vec::new();
    let mut i: usize = 0;
    while i < members.len()
        invariant
            i <= members@.len(),
            out@.len() == i,
            forall|j: int| 0 <= j < i ==> (#[trigger] out@[j])@ == members@[j]@,
        decreases members@.len() - i,
    {
        out.push(members[i].clone());
        i = i + 1;
    }
    assert(member_views(out@) =~= member_views(members@));
    out
}

/// A message that is held up goes on only once its user says so, and then to be encrypted:
/// neither waiting nor a refusal lets any form of it go.
pub proof fn held_up_until_confirmed(
    c: crate::client::ClientView,
    s: crate::store::StoreView,
    room: Seq<char>,
    body: Seq<u8>,
    before: Stage,
    event: SendEvent,
    after: Stage,
    action: SendAction,
)
    requires
        before is Waiting,
        right_next(c, s, room, body, before, event, after, action),
    ensures
        action is Encrypt || action is Refuse,
        action is Encrypt <==> event == SendEvent::Decided(Decision::SendAnyways),
{
}

/// A message that was to be encrypted leaves encrypted, and as it came only where that
/// failed: nothing that its user says, and nothing else that happens, lets it go plain at
/// that stage.
pub proof fn plain_only_where_encrypting_failed(
    c: crate::client::ClientView,
    s: crate::store::StoreView,
    room: Seq<char>,
    body: Seq<u8>,
    event: SendEvent,
    after: Stage,
    action: SendAction,
)
    requires
        right_next(c, s, room, body, Stage::Encrypting, event, after, action),
    ensures
        action is SendPlain <==> event == SendEvent::Encrypted(None),
        action is SendEncrypted <==> (event matches SendEvent::Encrypted(r) && r is Some),
{
}

/// Unless verification is ignored, no message to a room is encrypted while a device of
/// somebody else is undecided: its user is asked first.
pub proof fn undecided_devices_hold_up(
    c: crate::client::ClientView,
    s: crate::store::StoreView,
    room: Seq<char>,
    body: Seq<u8>,
    before: Stage,
    devices: Vec<DeviceFacts>,
    after: Stage,
    action: SendAction,
    i: int,
)
    requires
        before is AskedDevices,
        right_next(c, s, room, body, before, SendEvent::Devices(devices), after, action),
        0 <= i < devices@.len(),
        crate::client::devices::blocks(c.user_id, devices@[i]@),
    ensures
        after is Waiting,
        action is AskUser,
{
    let views = crate::client::devices::device_views(devices@);
    assert(views[i] == devices@[i]@);
    crate::client::devices::nothing_blocks(c.user_id, views);
}

/// A message to a room that the homeserver does not call encrypted leaves as it came.
pub proof fn unencrypted_rooms_pass(
    c: crate::client::ClientView,
    s: crate::store::StoreView,
    room: Seq<char>,
    body: Seq<u8>,
    status: Option<u16>,
    after: Stage,
    action: SendAction,
)
    requires
        !says_encrypted(status),
        right_next(
            c,
            s,
            room,
            body,
            Stage::AskedRoom,
            SendEvent::RoomAnswered(status),
            after,
            action,
        ),
    ensures
        action is SendPlain,
        after_event(c, room, Stage::AskedRoom, SendEvent::RoomAnswered(status)) == c,
{
}

/// How far a message has come, as a number.
pub open spec fn progress(stage: Stage) -> nat {
    match stage {
        Stage::Fresh => 0,
        Stage::AskedRoom => 1,
        Stage::AskedMembers { .. } => 2,
        Stage::AskedDevices { .. } => 3,
        Stage::Waiting { .. } => 4,
        Stage::Encrypting => 5,
        Stage::Finished => 6,
    }
}

/// Every event brings a message nearer to its end, so that it is soon sent or refused; and
/// it is sent or refused exactly at its end.
pub proof fn sending_ends(
    c: crate::client::ClientView,
    s: crate::store::StoreView,
    room: Seq<char>,
    body: Seq<u8>,
    before: Stage,
    event: SendEvent,
    after: Stage,
    action: SendAction,
)
    requires
        right_next(c, s, room, body, before, event, after, action),
    ensures
        before !is Finished ==> progress(after) > progress(before),
        after is Finished <==> action is SendPlain || action is SendEncrypted || action is Refuse,
        before is Finished ==> action is Refuse,
{
}

} // verus!
