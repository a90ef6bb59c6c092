//! What the proxy does with the requests that it does not merely pass on.

use vstd::prelude::*;
use crate::client::events::{encrypted_places, show_event, DecryptJob};
use crate::client::sync::Invite;
use crate::client::PanClient;
use crate::error::error_response;
use crate::ids::is_room_id;
use crate::json::Json;
use crate::messages::DaemonToUi;
use crate::proxy::daemon::ProxyDaemon;
use crate::store::{ClientInfo, PanStore};
use crate::text::{first_with_prefix, has_prefix, same, split, strip_prefix, trimmed};
use crate::wire::{
    build_response, copy_bytes, find_header, header_text, read_segment, text_bytes, ClientRequest,
    Header, ProxyResponse, UpstreamRequest, UpstreamResponse,
};

verus! {

/// How much of the body of a login is read.
pub const LOGIN_BODY_LIMIT: usize = 1048576;

/// How much of the body of any other request is read.
pub const BODY_LIMIT: usize = 104857600;

/// The value of the first parameter of a query that begins with `prefix`.
pub open spec fn parameter(query: Option<String>, prefix: Seq<char>) -> Option<Seq<char>> {
    match query {
        Some(q) => crate::text::first_after_prefix(crate::text::split_on(q@, '&'), prefix),
        None => None,
    }
}

/// The value of the first parameter of a query that begins with `prefix`.
pub(crate) fn find_parameter<'a>(query: &'a Option<String>, prefix: &str) -> (r: Option<&'a str>)
    ensures
        r is Some <==> parameter(*query, prefix@) is Some,
        r matches Some(v) ==> parameter(*query, prefix@) == Some(v@),
{
    match query {
        Some(q) => {
            let pieces = split(q.as_str(), '&');
            first_with_prefix(&pieces, prefix)
        },
        None => None,
    }
}

/// The token in the `Authorization` header.
pub open spec fn bearer_token(headers: Seq<crate::wire::HeaderView>) -> Option<Seq<char>> {
    match crate::wire::header_value(headers, "authorization"@) {
        Some(v) => match crate::wire::value_text(v) {
            Some(t) => if "Bearer "@.is_prefix_of(t) {
                Some(crate::text::trim(t.skip("Bearer "@.len() as int)))
            } else {
                None
            },
            None => None,
        },
        None => None,
    }
}

/// The access token of a request: that of the header, or else that of the query.
pub open spec fn token_of(req: ClientRequest) -> Option<Seq<char>> {
    match bearer_token(crate::wire::header_views(req.headers@)) {
        Some(t) => Some(t),
        None => parameter(req.query, "access_token="@),
    }
}

/// The token in the `Authorization` header.
fn find_bearer(headers: &Vec<Header>) -> (r: Option<String>)
    ensures
        r is Some <==> bearer_token(crate::wire::header_views(headers@)) is Some,
        r matches Some(t) ==> bearer_token(crate::wire::header_views(headers@)) == Some(t@),
{
    match find_header(headers, "authorization") {
        Some(value) => match header_text(value) {
            Some(text) => match strip_prefix(text.as_str(), "Bearer ") {
                Some(token) => Some(trimmed(token).to_owned()),
                None => None,
            },
            None => None,
        },
        None => None,
    }
}

/// The access token of a request.
pub fn extract_token(req: &ClientRequest) -> (r: Option<String>)
    ensures
        r is Some <==> token_of(*req) is Some,
        r matches Some(t) ==> token_of(*req) == Some(t@),
{
    match find_bearer(&req.headers) {
        Some(t) => Some(t),
        None => match find_parameter(&req.query, "access_token=") {
            Some(t) => Some(t.to_owned()),
            None => None,
        },
    }
}

/// The name under which the token of a device is kept in the keyring.
pub fn keyring_key(user_id: &str, device_id: &str) -> (r: String)
    ensures
        r@ == user_id@ + ":"@ + device_id@,
{
    user_id.to_owned().concat(":").concat(device_id)
}

/// What a homeserver answers to a login.
#[derive(Debug)]
pub struct LoginResponse {
    pub user_id: String,
    pub device_id: String,
    pub access_token: String,
}

/// A user, a device and a token.
#[verifier::ext_equal]
pub struct LoginView {
    pub user_id: Seq<char>,
    pub device_id: Seq<char>,
    pub access_token: Seq<char>,
}

/// What an answer to a login means, where there is one.
pub open spec fn login_view(l: Option<LoginResponse>) -> Option<LoginView> {
    match l {
        Some(l) => Some(
            LoginView {
                user_id: l.user_id@,
                device_id: l.device_id@,
                access_token: l.access_token@,
            },
        ),
        None => None,
    }
}

/// What the body of an answer to a login says, where it says all of a user, a device and a
/// token.
pub open spec fn login_said(body: Seq<u8>) -> Option<LoginView> {
    match (
        crate::json::said(body, "user_id"@, 0, 3),
        crate::json::said(body, "device_id"@, 1, 3),
        crate::json::said(body, "access_token"@, 2, 3),
    ) {
        (Some(user_id), Some(device_id), Some(access_token)) => Some(
            LoginView { user_id, device_id, access_token },
        ),
        _ => None,
    }
}

/// What the body of an answer to a login says: a user, a device and a token.
pub fn read_login(body: &Vec<u8>) -> (r: Option<LoginResponse>)
    ensures
        login_view(r) == login_said(body@),
{
    match (
        Json::text_in(body.as_slice(), "user_id", 0, 3),
        Json::text_in(body.as_slice(), "device_id", 1, 3),
        Json::text_in(body.as_slice(), "access_token", 2, 3),
    ) {
        (Some(user_id), Some(device_id), Some(access_token)) => Some(
            LoginResponse { user_id, device_id, access_token },
        ),
        _ => None,
    }
}

/// A token to be kept in the keyring.
#[derive(Debug)]
pub struct KeyringEntry {
    pub key: String,
    pub token: String,
}

/// What comes of a login.
#[derive(Debug)]
pub struct LoginOutcome {
    pub response: ProxyResponse,
    /// Whose login was recorded.
    pub recorded: Option<LoginResponse>,
    /// The token to be kept in the keyring.
    pub keyring: Option<KeyringEntry>,
    /// The new session.
    pub client: Option<PanClient>,
}

/// What comes of a session from an earlier run.
#[derive(Debug)]
pub struct RestoreOutcome {
    /// The token to be kept in the keyring.
    pub keyring: Option<KeyringEntry>,
    /// The session.
    pub client: Option<PanClient>,
}

/// The proxy after the session of a user was opened. There is none for a user whose
/// identifier is not one of Matrix.
pub open spec fn session_opened(
    d: crate::proxy::daemon::DaemonView,
    user: Seq<char>,
    token: Seq<char>,
) -> crate::proxy::daemon::DaemonView {
    if crate::ids::user_id_valid(user) {
        crate::proxy::daemon::registered(d, user, token)
    } else {
        d
    }
}

/// Whether an outcome carries the new session of a user, who has one at least where their
/// identifier is of the plain kind.
pub open spec fn carries_session(
    client: Option<PanClient>,
    d: crate::proxy::daemon::DaemonView,
    user: Seq<char>,
    device: Seq<char>,
    token: Seq<char>,
) -> bool {
    &&& client is Some <==> crate::ids::user_id_valid(user)
    &&& crate::ids::plain_user_id(user) ==> client is Some
    &&& client matches Some(c) ==> c@ == crate::client::fresh_client(user, device, token, d.server)
}

/// Whether an outcome asks for the token of a device to be kept, as the settings say.
pub open spec fn asks_keyring(
    keyring: Option<KeyringEntry>,
    d: crate::proxy::daemon::DaemonView,
    user: Seq<char>,
    device: Seq<char>,
    token: Seq<char>,
) -> bool {
    &&& keyring is Some <==> d.server.use_keyring
    &&& keyring matches Some(k) ==> k.key@ == user + ":"@ + device && k.token@ == token
}

/// The request to the homeserver that a login becomes.
pub fn login_request(daemon: &ProxyDaemon, req: &ClientRequest) -> (r: UpstreamRequest)
    ensures
        r@ == req.to_upstream(daemon@.server.homeserver, "POST"@, false, Some(req.body@)),
{
    req.upstream(
        daemon.config().homeserver.as_str(),
        "POST",
        false,
        Some(copy_bytes(&req.body)),
    )
}

/// Makes and registers the session of a user.
fn open_session(daemon: &mut ProxyDaemon, user_id: String, device_id: String, token: String) -> (r:
    Option<PanClient>)
    ensures
        carries_session(r, old(daemon)@, user_id@, device_id@, token@),
        final(daemon)@ == session_opened(old(daemon)@, user_id@, token@),
{
    let info = ClientInfo { user_id: user_id.clone(), access_token: token.clone() };
    match PanClient::new(user_id, device_id, token, daemon.config().copy()) {
        Ok(client) => {
            daemon.register_client(&info);
            Some(client)
        },
        Err(_) => None,
    }
}

/// The token to be kept in the keyring, where the settings say so.
fn keyring_entry(daemon: &ProxyDaemon, user_id: &str, device_id: &str, token: &str) -> (r: Option<
    KeyringEntry,
>)
    ensures
        asks_keyring(r, daemon@, user_id@, device_id@, token@),
{
    if daemon.config().use_keyring {
        Some(KeyringEntry { key: keyring_key(user_id, device_id), token: token.to_owned() })
    } else {
        None
    }
}

/// What comes of an answer to a login that says `said`, for the proxy and its records. Where
/// the homeserver let the user in and the answer says who they are, the token is recorded
/// and the session is registered; the client gets the answer as it came.
pub open spec fn login_taken(
    before: crate::proxy::daemon::DaemonView,
    after: crate::proxy::daemon::DaemonView,
    records: crate::store::StoreView,
    kept: crate::store::StoreView,
    response: crate::wire::ResponseView,
    said: Option<LoginView>,
    r: LoginOutcome,
) -> bool {
    &&& r.response@ == crate::wire::answered(response, response.body)
    &&& if crate::wire::is_success(response.status) {
        login_view(r.recorded) == said
    } else {
        r.recorded is None
    }
    &&& match login_view(r.recorded) {
        Some(l) => {
            &&& kept == crate::store::with_user(
                crate::store::with_access_token(records, l.user_id, l.device_id, l.access_token),
                before.server.name,
                l.user_id,
            )
            &&& asks_keyring(r.keyring, before, l.user_id, l.device_id, l.access_token)
            &&& carries_session(r.client, before, l.user_id, l.device_id, l.access_token)
            &&& after == session_opened(before, l.user_id, l.access_token)
        },
        None => {
            &&& kept == records
            &&& after == before
            &&& r.keyring is None
            &&& r.client is None
        },
    }
}

/// Takes the answer to a login, with what its body says, where that is what an answer to a
/// login must.
pub fn login(
    daemon: &mut ProxyDaemon,
    store: &mut PanStore,
    response: UpstreamResponse,
    parsed: Option<LoginResponse>,
) -> (r: LoginOutcome)
    requires
        old(store).wf(),
    ensures
        final(store).wf(),
        login_taken(
            old(daemon)@,
            final(daemon)@,
            old(store)@,
            final(store)@,
            response@,
            login_view(parsed),
            r,
        ),
{
    let success = response.succeeded();
    let answer = build_response(response.status, &response.headers, copy_bytes(&response.body));
    match parsed {
        Some(l) => if success {
            store.save_access_token(
                l.user_id.as_str(),
                l.device_id.as_str(),
                l.access_token.as_str(),
            );
            store.save_server_user(daemon.name(), l.user_id.as_str());
            let keyring = keyring_entry(
                daemon,
                l.user_id.as_str(),
                l.device_id.as_str(),
                l.access_token.as_str(),
            );
            let client = open_session(
                daemon,
                l.user_id.clone(),
                l.device_id.clone(),
                l.access_token.clone(),
            );
            LoginOutcome { response: answer, recorded: Some(l), keyring, client }
        } else {
            LoginOutcome { response: answer, recorded: None, keyring: None, client: None }
        },
        None => LoginOutcome { response: answer, recorded: None, keyring: None, client: None },
    }
}

/// Takes the answer to a login.
pub fn take_login(daemon: &mut ProxyDaemon, store: &mut PanStore, response: UpstreamResponse) -> (r:
    LoginOutcome)
    requires
        old(store).wf(),
    ensures
        final(store).wf(),
        login_taken(
            old(daemon)@,
            final(daemon)@,
            old(store)@,
            final(store)@,
            response@,
            login_said(response.body@),
            r,
        ),
{
    let parsed = read_login(&response.body);
    login(daemon, store, response, parsed)
}

/// The token of a session from an earlier run: that of the keyring, where the settings say
/// so and it has one, or else the recorded one.
pub open spec fn restored_token(
    use_keyring: bool,
    recorded: Seq<char>,
    kept: Option<String>,
) -> Seq<char> {
    match kept {
        Some(t) => if use_keyring {
            t@
        } else {
            recorded
        },
        None => recorded,
    }
}

/// Takes up a session from an earlier run. `kept` is the token that the keyring has for it.
pub fn restore_session(
    daemon: &mut ProxyDaemon,
    store: &mut PanStore,
    user_id: String,
    device_id: String,
    recorded: String,
    kept: Option<String>,
) -> (r: RestoreOutcome)
    requires
        old(store).wf(),
    ensures
        final(store).wf(),
        ({
            let token = restored_token(old(daemon)@.server.use_keyring, recorded@, kept);
            &&& final(store)@ == if token == recorded@ {
                old(store)@
            } else {
                crate::store::with_access_token(old(store)@, user_id@, device_id@, token)
            }
            &&& asks_keyring(r.keyring, old(daemon)@, user_id@, device_id@, token)
            &&& carries_session(r.client, old(daemon)@, user_id@, device_id@, token)
            &&& final(daemon)@ == session_opened(old(daemon)@, user_id@, token)
        }),
{
    let token = match kept {
        Some(t) => if daemon.config().use_keyring {
            t
        } else {
            recorded.clone()
        },
        None => recorded.clone(),
    };
    if !same(token.as_str(), recorded.as_str()) {
        store.save_access_token(user_id.as_str(), device_id.as_str(), token.as_str());
    }
    let keyring = keyring_entry(daemon, user_id.as_str(), device_id.as_str(), token.as_str());
    let client = open_session(daemon, user_id, device_id, token);
    RestoreOutcome { keyring, client }
}

/// A request that is passed on, or one whose answer is rewritten.
#[derive(Debug)]
pub enum SyncPlan {
    /// Pass on, and give the answer as it comes.
    Forward(UpstreamRequest),
    /// Ask the homeserver, and rewrite the answer for the session of the token.
    Process { request: UpstreamRequest, token: String },
}

/// What to do about a sync: the first one of a client, which says nothing of where it
/// stands, is passed on, and so is one without a token.
pub fn sync(daemon: &ProxyDaemon, req: &ClientRequest) -> (r: SyncPlan)
    ensures
        match r {
            SyncPlan::Forward(u) => {
                &&& parameter(req.query, "since="@) is None || token_of(*req) is None
                &&& u@ == crate::proxy::daemon::passed_on(daemon@, *req)
            },
            SyncPlan::Process { request, token } => {
                &&& parameter(req.query, "since="@) is Some
                &&& token_of(*req) == Some(token@)
                &&& request@ == req.to_upstream(
                    daemon@.server.homeserver,
                    req.method@,
                    false,
                    req.sent_body(),
                )
            },
        },
{
    match (find_parameter(&req.query, "since="), extract_token(req)) {
        (Some(_), Some(token)) => SyncPlan::Process {
            request: req.upstream(
                daemon.config().homeserver.as_str(),
                req.method.as_str(),
                false,
                req.body_to_send(),
            ),
            token,
        },
        _ => SyncPlan::Forward(daemon.forward_request(req)),
    }
}

/// The JSON that can be rewritten: that of an answer of success.
pub open spec fn rewritable(response: crate::wire::ResponseView) -> Option<crate::json::JsonView> {
    if crate::wire::is_success(response.status) {
        crate::json::decoded(response.body)
    } else {
        None
    }
}

/// The JSON that can be rewritten in an answer of the homeserver.
pub fn rewritable_body(response: &UpstreamResponse) -> (r: Option<Json>)
    ensures
        crate::client::sync::optional_json(r) == rewritable(response@),
{
    if response.succeeded() {
        Json::parse(response.body.as_slice())
    } else {
        None
    }
}

/// An answer of the homeserver with another JSON body.
pub open spec fn rewritten(
    response: crate::wire::ResponseView,
    body: crate::json::JsonView,
) -> crate::wire::ResponseView {
    crate::wire::answered(response, vstd::utf8::encode_utf8(crate::json::encoded(body)))
}

/// An answer of the homeserver with another JSON body.
fn rewrite(response: &UpstreamResponse, body: Json) -> (r: ProxyResponse)
    ensures
        r@ == rewritten(response@, body@),
        crate::json::reads_as(r@.body, body@),
{
    let text = body.write();
    build_response(response.status, &response.headers, text_bytes(text.as_str()))
}

/// The answer of the homeserver as it came.
pub fn pass_back(response: &UpstreamResponse) -> (r: ProxyResponse)
    ensures
        r@ == crate::wire::answered(response@, response.body@),
{
    build_response(response.status, &response.headers, copy_bytes(&response.body))
}

/// What to do about an answer of the homeserver that can be rewritten for a session.
#[derive(Debug)]
pub enum AnswerPlan {
    /// Rewrite its JSON for the session of a user.
    Rewrite { user_id: String, body: Json },
    /// Give it to the client as it came.
    PassBack(ProxyResponse),
}

/// What to do about an answer of the homeserver, given the user whose session the token of
/// the request belongs to, if there is one: it is rewritten for that session where it is
/// JSON and a success.
pub fn answer_plan(response: &UpstreamResponse, session: Option<String>) -> (r: AnswerPlan)
    ensures
        match r {
            AnswerPlan::Rewrite { user_id, body } => {
                &&& crate::client::sync::optional_text(session) == Some(user_id@)
                &&& rewritable(response@) == Some(body@)
            },
            AnswerPlan::PassBack(a) => {
                &&& session is None || rewritable(response@) is None
                &&& a@ == crate::wire::answered(response@, response.body@)
            },
        },
{
    match (session, rewritable_body(response)) {
        (Some(user_id), Some(body)) => AnswerPlan::Rewrite { user_id, body },
        _ => AnswerPlan::PassBack(pass_back(response)),
    }
}

/// Rewrites the answer to a sync for a session, and says what the user interface is told:
/// of new invitations to verify, and of new requests for room keys.
pub fn finish_sync(
    client: &mut PanClient,
    response: &UpstreamResponse,
    body: Json,
    decrypted: &Vec<(DecryptJob, Json)>,
    found: &Vec<(Invite, String)>,
) -> (r: (ProxyResponse, Vec<DaemonToUi>))
    requires
        forall|k: int|
            0 <= k < decrypted@.len() ==> (#[trigger] decrypted@[k]).1@ is Object
                || decrypted@[k].1@ is Null,
    ensures
        r.0@ == rewritten(
            response@,
            crate::client::sync::decrypted_body(
                body@,
                crate::client::sync::decrypted_views(decrypted@),
            ),
        ),
        crate::json::reads_as(
            r.0@.body,
            crate::client::sync::decrypted_body(
                body@,
                crate::client::sync::decrypted_views(decrypted@),
            ),
        ),
        ({
            let events = crate::client::sync::to_device_events(body@);
            let noted = crate::client::keys::after_key_events(old(client)@, events);
            &&& final(client)@ == crate::client::sync::synced_client(
                noted,
                body@,
                crate::client::sync::found_views(found@),
            )
            &&& crate::messages::ui_views(r.1@) == crate::client::sync::invites_told(
                noted.user_id,
                noted.notified_invite,
                crate::client::sync::found_views(found@),
            ) + crate::client::keys::keys_told(old(client)@, events)
        }),
{
    let mut body = body;
    let mut keys = client.note_key_requests(&body);
    let mut messages = client.process_sync(&mut body, decrypted, found);
    let ghost first = messages@;
    let ghost second = keys@;
    messages.append(&mut keys);
    assert(crate::messages::ui_views(messages@) =~= crate::messages::ui_views(first)
        + crate::messages::ui_views(second));
    (rewrite(response, body), messages)
}

/// The room that a path is about: what the first of its segments says that begins with
/// `!`, once escapes in it are read.
pub open spec fn room_in(segments: Seq<Seq<char>>) -> Option<Seq<char>>
    decreases segments.len(),
{
    if segments.len() == 0 {
        None
    } else {
        let text = crate::wire::segment_text(segments[0]);
        if "!"@.is_prefix_of(text) {
            Some(text)
        } else {
            room_in(segments.drop_first())
        }
    }
}

/// The room that a path is about.
fn find_room(path: &str) -> (r: Option<String>)
    ensures
        crate::client::sync::optional_text(r) == room_in(crate::text::split_on(path@, '/')),
{
    let pieces = split(path, '/');
    let ghost all = crate::text::views(pieces@);
    let mut i: usize = 0;
    assert(all.skip(0) == all);
    while i < pieces.len()
        invariant
            i <= pieces@.len(),
            all == crate::text::views(pieces@),
            all == crate::text::split_on(path@, '/'),
            room_in(all.skip(i as int)) == room_in(all),
        decreases pieces@.len() - i,
    {
        assert(all.skip(i as int)[0] == pieces@[i as int]@);
        assert(all.skip(i as int).drop_first() == all.skip(i + 1));
        let text = read_segment(pieces[i]);
        if has_prefix(text.as_str(), "!") {
            return Some(text);
        }
        i = i + 1;
    }
    None
}

/// What to do about a request for the history of a room.
#[derive(Debug)]
pub enum MessagesPlan {
    /// Ask the homeserver, and give the answer as it comes.
    PassBack(UpstreamRequest),
    /// Ask the homeserver, and rewrite the answer for the session of the token.
    Process { request: UpstreamRequest, token: String, room_id: String },
}

/// What to do about a request for the history of a room: the answer is rewritten where
/// there are a token and a room.
pub fn messages(daemon: &ProxyDaemon, req: &ClientRequest) -> (r: MessagesPlan)
    ensures
        ({
            let room = room_in(crate::text::split_on(req.path@, '/'));
            let asked = req.to_upstream(
                daemon@.server.homeserver,
                req.method@,
                false,
                req.sent_body(),
            );
            match r {
                MessagesPlan::PassBack(request) => {
                    &&& token_of(*req) is None || room is None
                    &&& request@ == asked
                },
                MessagesPlan::Process { request, token, room_id } => {
                    &&& token_of(*req) == Some(token@)
                    &&& room == Some(room_id@)
                    &&& request@ == asked
                },
            }
        }),
{
    let request = req.upstream(
        daemon.config().homeserver.as_str(),
        req.method.as_str(),
        false,
        req.body_to_send(),
    );
    match (extract_token(req), find_room(req.path.as_str())) {
        (Some(token), Some(room_id)) => MessagesPlan::Process { request, token, room_id },
        _ => MessagesPlan::PassBack(request),
    }
}

/// The events in an answer with the history of a room.
pub open spec fn chunk(body: crate::json::JsonView) -> Seq<crate::json::JsonView> {
    match crate::json::field(body, "chunk"@) {
        Some(v) => match crate::json::items_of(v) {
            Some(events) => events,
            None => Seq::empty(),
        },
        None => Seq::empty(),
    }
}

/// Whether a list of jobs holds the encrypted events in the history of a room, in order.
pub open spec fn lists_chunk(
    jobs: Seq<crate::client::events::JobView>,
    room: Seq<char>,
    events: Seq<crate::json::JsonView>,
) -> bool {
    &&& forall|k: int|
        0 <= k < jobs.len() ==> {
            let job = #[trigger] jobs[k];
            &&& job.room_id == room
            &&& 0 <= job.index < events.len()
            &&& job.event == events[job.index]
            &&& crate::client::events::encrypted_event(job.event)
        }
    &&& forall|i: int|
        0 <= i < events.len() && crate::client::events::encrypted_event(#[trigger] events[i])
            ==> exists|k: int| 0 <= k < jobs.len() && (#[trigger] jobs[k]).index == i
    &&& forall|k: int, l: int|
        0 <= k < l < jobs.len() ==> (#[trigger] jobs[k]).index < (#[trigger] jobs[l]).index
}

/// The encrypted events in the history of a room; none where the room cannot be one.
pub fn messages_jobs(body: &Json, room_id: &str) -> (r: Vec<DecryptJob>)
    ensures
        crate::ids::room_id_valid(room_id@) ==> lists_chunk(
            crate::client::events::job_views(r@),
            room_id@,
            chunk(body@),
        ),
        !crate::ids::room_id_valid(room_id@) ==> r@.len() == 0,
{
    let mut out: Vec<DecryptJob> = Vec::new();
    if !is_room_id(room_id) {
        return out;
    }
    match body.get("chunk") {
        Some(v) => match v.as_items() {
            Some(events) => {
                let places = encrypted_places(events);
                let ghost all = crate::json::items_view(events@);
                let mut p: usize = 0;
                while p < places.len()
                    invariant
                        p <= places@.len(),
                        all == crate::json::items_view(events@),
                        crate::client::events::lists_encrypted(places@, all),
                        out@.len() == p,
                        forall|q: int|
                            0 <= q < p ==> (#[trigger] out@[q])@ == (
                            crate::client::events::JobView {
                                room_id: room_id@,
                                index: places@[q] as int,
                                event: all[places@[q] as int],
                            }),
                    decreases places@.len() - p,
                {
                    let index = places[p];
                    assert(all[index as int] == events@[index as int]@);
                    out.push(
                        DecryptJob {
                            room_id: room_id.to_owned(),
                            index,
                            event: events[index].copy(),
                        },
                    );
                    p = p + 1;
                }
                proof {
                    let jobs = crate::client::events::job_views(out@);
                    assert forall|i: int|
                        0 <= i < all.len() && crate::client::events::encrypted_event(
                            #[trigger] all[i],
                        ) implies exists|k: int|
                        0 <= k < jobs.len() && (#[trigger] jobs[k]).index == i by {
                        let k = choose|k: int| 0 <= k < places@.len() && places@[k] == i;
                        assert(out@[k]@.index == i);
                        assert(jobs[k].index == i);
                    }
                    assert forall|k: int| 0 <= k < jobs.len() implies {
                        let job = #[trigger] jobs[k];
                        &&& job.room_id == room_id@
                        &&& 0 <= job.index < all.len()
                        &&& job.event == all[job.index]
                        &&& crate::client::events::encrypted_event(job.event)
                    } by {
                        assert(jobs[k] == out@[k]@);
                        assert(places@[k] < all.len());
                    }
                    assert forall|k: int, l: int| 0 <= k < l < jobs.len() implies (
                    #[trigger] jobs[k]).index < (#[trigger] jobs[l]).index by {
                        assert(jobs[k] == out@[k]@ && jobs[l] == out@[l]@);
                        assert(places@[k] < places@[l]);
                    }
                }
            },
            None => {},
        },
        None => {},
    }
    out
}

/// An answer with the history of a room in which events have been replaced by what they
/// say.
pub open spec fn decrypted_chunk(
    body: crate::json::JsonView,
    decrypted: Seq<(crate::client::events::JobView, crate::json::JsonView)>,
) -> crate::json::JsonView
    decreases decrypted.len(),
{
    if decrypted.len() == 0 {
        body
    } else {
        let before = decrypted_chunk(body, decrypted.drop_last());
        let (job, clear) = decrypted.last();
        crate::json::with_item(
            before,
            seq!["chunk"@],
            job.index,
            crate::client::events::shown_event(job.event, clear),
        )
    }
}

/// Rewriting the history of a room changes nothing but its events.
pub proof fn history_keeps_the_rest(
    body: crate::json::JsonView,
    decrypted: Seq<(crate::client::events::JobView, crate::json::JsonView)>,
    key: Seq<char>,
)
    requires
        key != "chunk"@,
    ensures
        crate::json::field(decrypted_chunk(body, decrypted), key) == crate::json::field(body, key),
    decreases decrypted.len(),
{
    if decrypted.len() > 0 {
        history_keeps_the_rest(body, decrypted.drop_last(), key);
        let before = decrypted_chunk(body, decrypted.drop_last());
        assert(seq!["chunk"@][0] == "chunk"@);
    }
}

/// Events in which some have been replaced by what they say.
pub open spec fn shown_chunk(
    events: Seq<crate::json::JsonView>,
    decrypted: Seq<(crate::client::events::JobView, crate::json::JsonView)>,
) -> Seq<crate::json::JsonView>
    decreases decrypted.len(),
{
    if decrypted.len() == 0 {
        events
    } else {
        let before = shown_chunk(events, decrypted.drop_last());
        let (job, clear) = decrypted.last();
        if 0 <= job.index < before.len() {
            before.update(job.index, crate::client::events::shown_event(job.event, clear))
        } else {
            before
        }
    }
}

/// Rewriting the history of a room replaces events in their places and keeps their number.
pub proof fn history_events(
    body: crate::json::JsonView,
    decrypted: Seq<(crate::client::events::JobView, crate::json::JsonView)>,
)
    requires
        crate::client::events::array_at(body, seq!["chunk"@]) is Some,
    ensures
        crate::client::events::array_at(decrypted_chunk(body, decrypted), seq!["chunk"@]) == Some(
            shown_chunk(chunk(body), decrypted),
        ),
        chunk(decrypted_chunk(body, decrypted)) == shown_chunk(chunk(body), decrypted),
        shown_chunk(chunk(body), decrypted).len() == chunk(body).len(),
    decreases decrypted.len(),
{
    let path = seq!["chunk"@];
    lemma_chunk(body);
    lemma_chunk(decrypted_chunk(body, decrypted));
    if decrypted.len() > 0 {
        history_events(body, decrypted.drop_last());
        let before = decrypted_chunk(body, decrypted.drop_last());
        let (job, clear) = decrypted.last();
        crate::json::lemma_with_item_there(
            before,
            path,
            job.index,
            crate::client::events::shown_event(job.event, clear),
        );
    }
}

/// The events in the history of a room stand where the path of one key leads.
proof fn lemma_chunk(body: crate::json::JsonView)
    ensures
        crate::client::events::array_at(body, seq!["chunk"@]) matches Some(events) ==> chunk(body)
            == events,
{
    let path = seq!["chunk"@];
    assert(path[0] == "chunk"@);
    assert(path.drop_first().len() == 0);
    match crate::json::field(body, "chunk"@) {
        Some(v) => {
            assert(crate::json::pointer(v, path.drop_first()) == Some(v));
        },
        None => {},
    }
}

/// Whether each of a list of decrypted events stands at its place, and no two at one place.
pub open spec fn in_places(
    events: Seq<crate::json::JsonView>,
    decrypted: Seq<(crate::client::events::JobView, crate::json::JsonView)>,
) -> bool {
    &&& forall|k: int|
        0 <= k < decrypted.len() ==> {
            let job = (#[trigger] decrypted[k]).0;
            0 <= job.index < events.len() && job.event == events[job.index]
        }
    &&& forall|k: int, l: int|
        0 <= k < l < decrypted.len() ==> (#[trigger] decrypted[k]).0.index != (
        #[trigger] decrypted[l]).0.index
}

/// A client sees, for each event in the history of a room, what it says where it was
/// decrypted, and the event itself where it was not.
pub proof fn history_shows_events(
    body: crate::json::JsonView,
    decrypted: Seq<(crate::client::events::JobView, crate::json::JsonView)>,
    index: int,
)
    requires
        crate::client::events::array_at(body, seq!["chunk"@]) is Some,
        in_places(chunk(body), decrypted),
        0 <= index < chunk(body).len(),
    ensures
        chunk(decrypted_chunk(body, decrypted)).len() == chunk(body).len(),
        forall|k: int|
            0 <= k < decrypted.len() && (#[trigger] decrypted[k]).0.index == index ==> chunk(
                decrypted_chunk(body, decrypted),
            )[index] == crate::client::events::shown_event(chunk(body)[index], decrypted[k].1),
        (forall|k: int| 0 <= k < decrypted.len() ==> (#[trigger] decrypted[k]).0.index != index)
            ==> chunk(decrypted_chunk(body, decrypted))[index] == chunk(body)[index],
{
    history_events(body, decrypted);
    lemma_shown_chunk(chunk(body), decrypted, index);
}

/// What stands at a place among events of which some have been replaced.
proof fn lemma_shown_chunk(
    events: Seq<crate::json::JsonView>,
    decrypted: Seq<(crate::client::events::JobView, crate::json::JsonView)>,
    index: int,
)
    requires
        in_places(events, decrypted),
        0 <= index < events.len(),
    ensures
        shown_chunk(events, decrypted).len() == events.len(),
        forall|k: int|
            0 <= k < decrypted.len() && (#[trigger] decrypted[k]).0.index == index ==> shown_chunk(
                events,
                decrypted,
            )[index] == crate::client::events::shown_event(events[index], decrypted[k].1),
        (forall|k: int| 0 <= k < decrypted.len() ==> (#[trigger] decrypted[k]).0.index != index)
            ==> shown_chunk(events, decrypted)[index] == events[index],
    decreases decrypted.len(),
{
    if decrypted.len() > 0 {
        let before = decrypted.drop_last();
        let n = decrypted.len() - 1;
        assert forall|k: int| 0 <= k < before.len() implies (#[trigger] before[k])
            == decrypted[k] by {}
        assert(in_places(events, before)) by {
            assert forall|k: int| 0 <= k < before.len() implies {
                let job = (#[trigger] before[k]).0;
                0 <= job.index < events.len() && job.event == events[job.index]
            } by {
                assert(before[k] == decrypted[k]);
            }
            assert forall|k: int, l: int| 0 <= k < l < before.len() implies (
            #[trigger] before[k]).0.index != (#[trigger] before[l]).0.index by {
                assert(before[k] == decrypted[k] && before[l] == decrypted[l]);
            }
        }
        lemma_shown_chunk(events, before, index);
        assert(decrypted.last() == decrypted[n]);
        if decrypted[n].0.index == index {
            assert forall|k: int|
                0 <= k < decrypted.len() && (#[trigger] decrypted[k]).0.index == index implies k
                == n by {
                if k < n {
                    assert(decrypted[k].0.index != decrypted[n].0.index);
                }
            }
        } else {
            assert forall|k: int|
                0 <= k < decrypted.len() && (#[trigger] decrypted[k]).0.index
                    == index implies shown_chunk(events, decrypted)[index]
                == crate::client::events::shown_event(events[index], decrypted[k].1) by {
                assert(before[k] == decrypted[k]);
            }
            if forall|k: int| 0 <= k < decrypted.len() ==> (#[trigger] decrypted[k]).0.index != index {
                assert forall|k: int| 0 <= k < before.len() implies (#[trigger] before[k]).0.index
                    != index by {
                    assert(before[k] == decrypted[k]);
                }
            }
        }
    }
}

/// Rewrites the answer with the history of a room.
pub fn finish_messages(
    response: &UpstreamResponse,
    body: Json,
    decrypted: &Vec<(DecryptJob, Json)>,
) -> (r: ProxyResponse)
    requires
        forall|k: int|
            0 <= k < decrypted@.len() ==> (#[trigger] decrypted@[k]).1@ is Object
                || decrypted@[k].1@ is Null,
    ensures
        r@ == rewritten(
            response@,
            decrypted_chunk(body@, crate::client::sync::decrypted_views(decrypted@)),
        ),
        crate::json::reads_as(
            r@.body,
            decrypted_chunk(body@, crate::client::sync::decrypted_views(decrypted@)),
        ),
{
    let mut body = body;
    let ghost start = body@;
    let ghost all = crate::client::sync::decrypted_views(decrypted@);
    let mut path: Vec<&str> = Vec::new();
    path.push("chunk");
    assert(crate::text::views(path@).skip(0) =~= seq!["chunk"@]);
    let mut k: usize = 0;
    assert(decrypted_chunk(start, all.take(0)) == start);
    while k < decrypted.len()
        invariant
            k <= decrypted@.len(),
            all == crate::client::sync::decrypted_views(decrypted@),
            path@.len() == 1,
            crate::text::views(path@).skip(0) == seq!["chunk"@],
            forall|k: int|
                0 <= k < decrypted@.len() ==> (#[trigger] decrypted@[k]).1@ is Object
                    || decrypted@[k].1@ is Null,
            body@ == decrypted_chunk(start, all.take(k as int)),
        decreases decrypted@.len() - k,
    {
        assert(all.take(k + 1).drop_last() == all.take(k as int));
        assert(all.take(k + 1).last() == all[k as int]);
        let job = &decrypted[k].0;
        let event = show_event(&job.event, decrypted[k].1.copy());
        body.set_item(&path, 0, job.index, event);
        k = k + 1;
    }
    assert(all.take(k as int) == all);
    rewrite(response, body)
}

/// A request that is passed on, or one that is answered at once.
#[derive(Debug)]
pub enum SearchPlan {
    Forward(UpstreamRequest),
    Respond(ProxyResponse),
}

/// What to do about a search: it is passed on where the settings allow it.
pub fn search(daemon: &ProxyDaemon, req: &ClientRequest) -> (r: SearchPlan)
    ensures
        match r {
            SearchPlan::Forward(u) => {
                &&& daemon@.server.search_requests
                &&& u@ == crate::proxy::daemon::passed_on(daemon@, *req)
            },
            SearchPlan::Respond(a) => {
                &&& !daemon@.server.search_requests
                &&& a@ == crate::error::json_response(
                    404,
                    crate::error::error_json("M_NOT_FOUND"@, "Local search is not enabled"@),
                )
                &&& crate::json::decoded(a@.body) == Some(
                    crate::error::error_json("M_NOT_FOUND"@, "Local search is not enabled"@),
                )
            },
        },
{
    if daemon.config().search_requests {
        SearchPlan::Forward(daemon.forward_request(req))
    } else {
        SearchPlan::Respond(error_response(404, "M_NOT_FOUND", "Local search is not enabled"))
    }
}

/// The answer to the question what a search may look like: anything.
pub fn search_opts() -> (r: ProxyResponse)
    ensures
        r@ == (crate::wire::ResponseView {
            status: 200,
            headers: Seq::empty(),
            body: Seq::empty(),
        }),
{
    let r = ProxyResponse { status: 200, headers: Vec::new(), body: Vec::new() };
    assert(r@.headers =~= Seq::empty());
    assert(r@.body =~= Seq::empty());
    r
}

/// Passes a request on.
pub fn proxy_pass(daemon: &ProxyDaemon, req: &ClientRequest) -> (r: UpstreamRequest)
    ensures
        r@ == crate::proxy::daemon::passed_on(daemon@, *req),
{
    daemon.forward_request(req)
}

/// Passes on the wish for a new room.
pub fn create_room(daemon: &ProxyDaemon, req: &ClientRequest) -> (r: UpstreamRequest)
    ensures
        r@ == crate::proxy::daemon::passed_on(daemon@, *req),
{
    daemon.forward_request(req)
}

/// Passes a filter on.
pub fn filter(daemon: &ProxyDaemon, req: &ClientRequest) -> (r: UpstreamRequest)
    ensures
        r@ == crate::proxy::daemon::passed_on(daemon@, *req),
{
    daemon.forward_request(req)
}

/// Passes a change of profile on.
pub fn profile(daemon: &ProxyDaemon, req: &ClientRequest) -> (r: UpstreamRequest)
    ensures
        r@ == crate::proxy::daemon::passed_on(daemon@, *req),
{
    daemon.forward_request(req)
}

/// Passes on the question where the homeserver is.
pub fn well_known(daemon: &ProxyDaemon, req: &ClientRequest) -> (r: UpstreamRequest)
    ensures
        r@ == crate::proxy::daemon::passed_on(daemon@, *req),
{
    daemon.forward_request(req)
}

} // verus!
