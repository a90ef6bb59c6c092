//! Laws of who is logged in: tokens, logins and sessions.

use vstd::prelude::*;
use crate::client::PanClient;
use crate::json::JsonView;
use crate::proxy::daemon::{HttpSettings, ProxyDaemon, Resolution};
use crate::proxy::routes::{
    extract_token, keyring_key, login, login_request, read_login, restore_session, take_login,
    LoginOutcome, LoginResponse, RestoreOutcome,
};
use crate::store::{ClientInfo, PanStore};
use crate::wire::{ClientRequest, UpstreamRequest, UpstreamResponse};

verus! {

/// Whether the first header of a request with a name has a text.
pub open spec fn first_header(req: ClientRequest, name: Seq<char>, text: Seq<char>) -> bool {
    exists|i: int|
        0 <= i < req.headers@.len() && (#[trigger] req.headers@[i]).name@ == name
            && crate::wire::value_text(req.headers@[i].value@) == Some(text) && forall|j: int|
            0 <= j < i ==> (#[trigger] req.headers@[j]).name@ != name
}

/// Whether a request has a header with a name.
pub open spec fn has_header(req: ClientRequest, name: Seq<char>) -> bool {
    exists|i: int| 0 <= i < req.headers@.len() && (#[trigger] req.headers@[i]).name@ == name
}

/// Whether a header is the first that authorizes a request, and does so without a token.
pub open spec fn other_scheme(req: ClientRequest, i: int) -> bool {
    &&& 0 <= i < req.headers@.len()
    &&& req.headers@[i].name@ == "authorization"@
    &&& forall|j: int| 0 <= j < i ==> (#[trigger] req.headers@[j]).name@ != "authorization"@
    &&& match crate::wire::value_text(req.headers@[i].value@) {
        Some(t) => !"Bearer "@.is_prefix_of(t),
        None => true,
    }
}

/// Whether no header of a request bears a token: none authorizes it, or the first that does
/// has no word `Bearer`.
pub open spec fn bears_no_token(req: ClientRequest) -> bool {
    ||| !has_header(req, "authorization"@)
    ||| exists|i: int| #[trigger] other_scheme(req, i)
}

/// Whether a text has no white space at its ends.
pub open spec fn is_tight(t: Seq<char>) -> bool {
    t.len() > 0 ==> !crate::text::is_white_space(t[0]) && !crate::text::is_white_space(t.last())
}

/// The token of a request is the one of its header, behind the word `Bearer` and without white
/// space at its ends; where no header bears one, it is the value of the parameter
/// `access_token` of its query.
pub proof fn tokens_are_extracted(
    req: ClientRequest,
    r: Option<String>,
    token: Seq<char>,
)
    requires
        call_ensures(extract_token, (&req,), r),
    ensures
        first_header(req, "authorization"@, "Bearer "@ + token) ==> (r matches Some(t) && t@
            == crate::text::trim(token)),
        first_header(req, "authorization"@, "Bearer "@ + token) && is_tight(token) ==> (
        r matches Some(t) && t@ == token),
        bears_no_token(req) && req.query is None ==> r is None,
        bears_no_token(req) ==> (req.query matches Some(q) ==> match r {
            Some(t) => first_parameter(q@, "access_token="@, t@),
            None => no_parameter(q@, "access_token="@),
        }),
{
    crate::laws::wire::lemma_first_header(req.headers@, "authorization"@);
    if first_header(req, "authorization"@, "Bearer "@ + token) {
        let i = choose|i: int|
            0 <= i < req.headers@.len() && (#[trigger] req.headers@[i]).name@ == "authorization"@
                && crate::wire::value_text(req.headers@[i].value@) == Some("Bearer "@ + token)
                && forall|j: int|
                0 <= j < i ==> (#[trigger] req.headers@[j]).name@ != "authorization"@;
        let views = crate::wire::header_views(req.headers@);
        let v = crate::wire::header_value(views, "authorization"@).unwrap();
        let k = choose|k: int|
            0 <= k < req.headers@.len() && (#[trigger] req.headers@[k]).name@ == "authorization"@
                && req.headers@[k].value@ == v && forall|j: int|
                0 <= j < k ==> (#[trigger] req.headers@[j]).name@ != "authorization"@;
        assert(k == i) by {
            if k < i {
                assert(req.headers@[k].name@ != "authorization"@);
            }
            if i < k {
                assert(req.headers@[i].name@ != "authorization"@);
            }
        }
        let text = "Bearer "@ + token;
        assert("Bearer "@.is_prefix_of(text)) by {
            assert(text.subrange(0, "Bearer "@.len() as int) =~= "Bearer "@);
        }
        assert(text.skip("Bearer "@.len() as int) =~= token);
        if is_tight(token) {
            lemma_tight(token);
        }
    }
    if bears_no_token(req) {
        if has_header(req, "authorization"@) {
            let i = choose|i: int| #[trigger] other_scheme(req, i);
            let views = crate::wire::header_views(req.headers@);
            let v = crate::wire::header_value(views, "authorization"@).unwrap();
            let k = choose|k: int|
                0 <= k < req.headers@.len() && (#[trigger] req.headers@[k]).name@
                    == "authorization"@ && req.headers@[k].value@ == v && forall|j: int|
                    0 <= j < k ==> (#[trigger] req.headers@[j]).name@ != "authorization"@;
            assert(k == i) by {
                if k < i {
                    assert(req.headers@[k].name@ != "authorization"@);
                }
                if i < k {
                    assert(req.headers@[i].name@ != "authorization"@);
                }
            }
        }
        if let Some(q) = req.query {
            lemma_parameter(crate::text::split_on(q@, '&'), "access_token="@);
        }
    }
}

/// A text without white space at its ends stays as it is.
proof fn lemma_tight(t: Seq<char>)
    requires
        is_tight(t),
    ensures
        crate::text::trim(t) == t,
{
    if t.len() > 0 {
        assert(crate::text::trim_start(t) == t);
        assert(crate::text::trim_end(t) == t);
    }
}

/// Whether a value is that of the first parameter of a query that begins with a prefix.
pub open spec fn first_parameter(query: Seq<char>, prefix: Seq<char>, value: Seq<char>) -> bool {
    let pieces = crate::text::split_on(query, '&');
    exists|i: int|
        0 <= i < pieces.len() && (#[trigger] pieces[i]) == prefix + value && forall|j: int|
            0 <= j < i ==> !prefix.is_prefix_of(#[trigger] pieces[j])
}

/// Whether no parameter of a query begins with a prefix.
pub open spec fn no_parameter(query: Seq<char>, prefix: Seq<char>) -> bool {
    let pieces = crate::text::split_on(query, '&');
    forall|i: int| 0 <= i < pieces.len() ==> !prefix.is_prefix_of(#[trigger] pieces[i])
}

/// The rest of the first piece with a prefix.
pub proof fn lemma_parameter(pieces: Seq<Seq<char>>, prefix: Seq<char>)
    ensures
        match crate::text::first_after_prefix(pieces, prefix) {
            Some(value) => exists|i: int|
                0 <= i < pieces.len() && (#[trigger] pieces[i]) == prefix + value && forall|j: int|
                    0 <= j < i ==> !prefix.is_prefix_of(#[trigger] pieces[j]),
            None => forall|i: int|
                0 <= i < pieces.len() ==> !prefix.is_prefix_of(#[trigger] pieces[i]),
        },
    decreases pieces.len(),
{
    if pieces.len() > 0 {
        if prefix.is_prefix_of(pieces[0]) {
            assert(pieces[0] =~= prefix + pieces[0].skip(prefix.len() as int));
        } else {
            let rest = pieces.drop_first();
            lemma_parameter(rest, prefix);
            match crate::text::first_after_prefix(rest, prefix) {
                Some(value) => {
                    let i = choose|i: int|
                        0 <= i < rest.len() && (#[trigger] rest[i]) == prefix + value && forall|
                            j: int,
                        | 0 <= j < i ==> !prefix.is_prefix_of(#[trigger] rest[j]);
                    assert(pieces[i + 1] == rest[i]);
                    assert forall|j: int| 0 <= j < i + 1 implies !prefix.is_prefix_of(
                        #[trigger] pieces[j],
                    ) by {
                        if j > 0 {
                            assert(rest[j - 1] == pieces[j]);
                        }
                    }
                },
                None => {
                    assert forall|i: int| 0 <= i < pieces.len() implies !prefix.is_prefix_of(
                        #[trigger] pieces[i],
                    ) by {
                        if i > 0 {
                            assert(rest[i - 1] == pieces[i]);
                        }
                    }
                },
            }
        }
    }
}

/// Whether an answer names a user, a device and a token under their names.
pub open spec fn names_login(
    body: Seq<u8>,
    user: Seq<char>,
    device: Seq<char>,
    token: Seq<char>,
) -> bool {
    &&& crate::json::decoded(body) matches Some(JsonView::Object(fields))
    &&& fields.contains_key("user_id"@) && fields["user_id"@] == JsonView::Text(user)
    &&& fields.contains_key("device_id"@) && fields["device_id"@] == JsonView::Text(device)
    &&& fields.contains_key("access_token"@) && fields["access_token"@] == JsonView::Text(token)
}

/// The answer to a login is read by the names of its parts, and as nothing where one of them
/// is missing or no text.
pub proof fn logins_are_read(
    body: Vec<u8>,
    r: Option<LoginResponse>,
    user: Seq<char>,
    device: Seq<char>,
    token: Seq<char>,
)
    requires
        call_ensures(read_login, (&body,), r),
    ensures
        names_login(body@, user, device, token) ==> (r matches Some(l) && l.user_id@ == user
            && l.device_id@ == device && l.access_token@ == token),
        crate::json::decoded(body@) matches Some(JsonView::Object(_)) ==> (r matches Some(l)
            ==> names_login(body@, l.user_id@, l.device_id@, l.access_token@)),
        crate::json::decoded(body@) == Some(
            JsonView::Array(
                seq![JsonView::Text(user), JsonView::Text(device), JsonView::Text(token)],
            ),
        ) ==> (r matches Some(l) && l.user_id@ == user && l.device_id@ == device
            && l.access_token@ == token),
        crate::json::decoded(body@) is None ==> r is None,
{
}

/// A login that the homeserver granted is noted in every place: the token is recorded for its
/// device, the user is listed on the server, the token is that of the user's session, the
/// keyring gets it where the settings say so, and the session starts for that user, device and
/// token. The client gets the answer as it came.
pub proof fn granted_logins_are_noted(
    daemon: &mut ProxyDaemon,
    store: &mut PanStore,
    response: UpstreamResponse,
    r: LoginOutcome,
    user: Seq<char>,
    device: Seq<char>,
    token: Seq<char>,
)
    requires
        old(store).wf(),
        call_ensures(take_login, (daemon, store, response), r),
        200 <= response.status < 300,
        names_login(response.body@, user, device, token),
        crate::ids::plain_user_id(user),
    ensures
        crate::store::access_token_at(final(store)@, user, device) == Some(token),
        crate::store::users_of(
            final(store)@.server_users,
            old(daemon)@.server.name,
        ).contains(user),
        final(daemon)@.clients.contains_key(user) && final(daemon)@.clients[user] == token,
        final(daemon)@.tokens.contains_key(token) && final(daemon)@.tokens[token] == user,
        final(daemon)@.server == old(daemon)@.server,
        old(daemon)@.server.use_keyring <==> r.keyring is Some,
        r.keyring matches Some(k) ==> k.key@ == user + ":"@ + device && k.token@ == token,
        r.client matches Some(c) && c@.user_id == user && c@.device_id == device
            && c@.access_token == token && c@.server == old(daemon)@.server,
        r.recorded matches Some(l) && l.user_id@ == user && l.device_id@ == device
            && l.access_token@ == token,
        r.response.status == response.status,
        r.response.body@ == response.body@,
{
    let saved = crate::store::with_access_token(old(store)@, user, device, token);
    crate::store::access_token_read_back(old(store)@, user, device, token, user, device);
    let tokens = old(store)@.access_tokens;
    crate::table::lemma_updated(tokens, seq![user, device], seq![token], seq![user, device]);
    assert(crate::store::shaped(saved.server_users, 2, 0));
    let users = saved.server_users;
    let name = old(daemon)@.server.name;
    assert(crate::store::access_token_at(final(store)@, user, device)
        == crate::store::access_token_at(saved, user, device));
    crate::laws::records::lemma_row_added(users, name, user);
}

/// A login that the homeserver refused, or whose answer does not say who was let in, changes
/// nothing: no record, no session, no token; the client gets the answer as it came.
pub proof fn refused_logins_change_nothing(
    daemon: &mut ProxyDaemon,
    store: &mut PanStore,
    response: UpstreamResponse,
    r: LoginOutcome,
    read: Option<LoginResponse>,
)
    requires
        call_ensures(take_login, (daemon, store, response), r),
        call_ensures(read_login, (&response.body,), read),
        !(200 <= response.status < 300) || read is None,
    ensures
        final(store)@ == old(store)@,
        final(daemon)@ == old(daemon)@,
        r.recorded is None,
        r.keyring is None,
        r.client is None,
        100 <= response.status < 1000 ==> r.response.status == response.status,
        r.response.body@ == response.body@,
{
}

/// A user whose identifier is not one of Matrix gets no session, though the homeserver let
/// them in; their token is recorded all the same.
pub proof fn no_session_without_a_user(
    daemon: &mut ProxyDaemon,
    store: &mut PanStore,
    response: UpstreamResponse,
    r: LoginOutcome,
    user: Seq<char>,
    device: Seq<char>,
    token: Seq<char>,
)
    requires
        old(store).wf(),
        call_ensures(take_login, (daemon, store, response), r),
        200 <= response.status < 300,
        names_login(response.body@, user, device, token),
        !crate::ids::user_id_valid(user),
    ensures
        r.client is None,
        final(daemon)@ == old(daemon)@,
        r.recorded is Some,
        crate::store::access_token_at(final(store)@, user, device) == Some(token),
{
    let saved = crate::store::with_access_token(old(store)@, user, device, token);
    crate::store::access_token_read_back(old(store)@, user, device, token, user, device);
    assert(crate::store::access_token_at(final(store)@, user, device)
        == crate::store::access_token_at(saved, user, device));
}

/// The request of a login goes to the homeserver as it came.
pub proof fn logins_go_to_the_homeserver(
    daemon: ProxyDaemon,
    req: ClientRequest,
    r: UpstreamRequest,
)
    requires
        call_ensures(login_request, (&daemon, &req), r),
    ensures
        r.method@ == "POST"@,
        req.target matches Some(t) ==> r.url@ == crate::text::strip_end(
            daemon@.server.homeserver,
            '/',
        ) + t@,
        r.body matches Some(b) && b@ == req.body@,
        crate::wire::header_views(r.headers@) == crate::laws::wire::going_up(
            crate::wire::header_views(req.headers@),
            false,
        ),
{
    crate::laws::wire::lemma_going_up(crate::wire::header_views(req.headers@), false);
}

/// A session of an earlier run starts again with the token of the keyring where the settings
/// say so and it has one, and else with the recorded token; the token that it starts with is
/// recorded, kept in the keyring where the settings say so, and that of the user's session.
pub proof fn sessions_are_restored(
    daemon: &mut ProxyDaemon,
    store: &mut PanStore,
    user_id: String,
    device_id: String,
    recorded: String,
    kept: Option<String>,
    r: RestoreOutcome,
)
    requires
        old(store).wf(),
        crate::store::access_token_at(old(store)@, user_id@, device_id@) == Some(recorded@),
        call_ensures(
            restore_session,
            (daemon, store, user_id, device_id, recorded, kept),
            r,
        ),
        crate::ids::plain_user_id(user_id@),
    ensures
        ({
            let token = if old(daemon)@.server.use_keyring && kept is Some {
                kept.unwrap()@
            } else {
                recorded@
            };
            &&& crate::store::access_token_at(final(store)@, user_id@, device_id@) == Some(token)
            &&& final(daemon)@.clients.contains_key(user_id@)
            &&& final(daemon)@.clients[user_id@] == token
            &&& final(daemon)@.tokens.contains_key(token)
            &&& final(daemon)@.tokens[token] == user_id@
            &&& r.keyring is Some <==> old(daemon)@.server.use_keyring
            &&& r.keyring matches Some(k) ==> k.key@ == user_id@ + ":"@ + device_id@ && k.token@
                == token
            &&& r.client matches Some(c)
            &&& c@.user_id == user_id@
            &&& c@.device_id == device_id@
            &&& c@.access_token == token
        }),
{
    let token = if old(daemon)@.server.use_keyring && kept is Some {
        kept.unwrap()@
    } else {
        recorded@
    };
    crate::store::access_token_read_back(
        old(store)@,
        user_id@,
        device_id@,
        token,
        user_id@,
        device_id@,
    );
}

/// A token is kept in the keyring under its user and its device.
pub proof fn keyring_is_keyed_by_device(user: &str, device: &str, r: String)
    requires
        call_ensures(keyring_key, (user, device), r),
    ensures
        r@.len() == user@.len() + 1 + device@.len(),
        r@.take(user@.len() as int) == user@,
        r@[user@.len() as int] == ':',
        r@.skip(user@.len() as int + 1) == device@,
{
    reveal_strlit(":");
    assert(r@.take(user@.len() as int) =~= user@);
    assert(r@.skip(user@.len() as int + 1) =~= device@);
}

/// A token belongs to the session of the user it was last seen for, where that user has one;
/// the homeserver is asked about a token that was never seen.
pub proof fn tokens_are_resolved(daemon: ProxyDaemon, token: &str, r: Resolution, known: bool)
    requires
        call_ensures(ProxyDaemon::resolve_client, (&daemon, token), r),
        call_ensures(ProxyDaemon::is_known_token, (&daemon, token), known),
    ensures
        r matches Resolution::Client(u) ==> daemon@.tokens.contains_key(token@)
            && daemon@.tokens[token@] == u@ && daemon@.clients.contains_key(u@),
        r is NoClient ==> daemon@.tokens.contains_key(token@) && !daemon@.clients.contains_key(
            daemon@.tokens[token@],
        ),
        r is Ask <==> !daemon@.tokens.contains_key(token@),
        known <==> r is Client,
{
}

/// A session that is registered has its token from then on, and no token that the user had
/// before; all other users keep theirs.
pub proof fn sessions_are_registered(
    daemon: &mut ProxyDaemon,
    client: ClientInfo,
    user: Seq<char>,
    token: Seq<char>,
)
    requires
        call_ensures(ProxyDaemon::register_client, (daemon, &client), ()),
    ensures
        ({
            let before = old(daemon)@;
            let after = final(daemon)@;
            &&& after.server == before.server
            &&& after.clients.contains_key(client.user_id@)
            &&& after.clients[client.user_id@] == client.access_token@
            &&& after.tokens.contains_key(client.access_token@)
            &&& after.tokens[client.access_token@] == client.user_id@
            &&& user != client.user_id@ ==> {
                &&& after.clients.contains_key(user) == before.clients.contains_key(user)
                &&& after.clients[user] == before.clients[user]
            }
            &&& before.clients.contains_key(client.user_id@) && before.clients[client.user_id@]
                != client.access_token@ ==> !after.tokens.contains_key(
                before.clients[client.user_id@],
            )
            &&& token != client.access_token@ && !(before.clients.contains_key(client.user_id@)
                && before.clients[client.user_id@] == token) ==> {
                &&& after.tokens.contains_key(token) == before.tokens.contains_key(token)
                &&& after.tokens[token] == before.tokens[token]
            }
        }),
{
}

/// The homeserver is asked whose token it is with that token, and with nothing else.
pub proof fn homeserver_is_asked(daemon: ProxyDaemon, token: &str, r: UpstreamRequest)
    requires
        call_ensures(ProxyDaemon::whoami_request, (&daemon, token), r),
    ensures
        r.method@ == "GET"@,
        r.url@ == crate::text::strip_end(daemon@.server.homeserver, '/')
            + "/_matrix/client/v3/whoami"@,
        r.headers@.len() == 1,
        r.headers@[0].name@ == "authorization"@,
        r.headers@[0].value@ == vstd::utf8::encode_utf8("Bearer "@ + token@),
        r.body is None,
{
    let views = crate::wire::header_views(r.headers@);
    assert(views.len() == r.headers@.len());
    assert(views[0] == r.headers@[0]@);
}

/// The answer of the homeserver whose token it is counts where it is a success and names a
/// user: the token is that user's from then on, and it is that of a session exactly where the
/// user has one. Else nothing changes.
pub proof fn answers_about_tokens_count(
    daemon: &mut ProxyDaemon,
    token: &str,
    response: Option<UpstreamResponse>,
    r: Option<String>,
    user: Seq<char>,
)
    requires
        call_ensures(ProxyDaemon::take_whoami, (daemon, token, &response), r),
    ensures
        (response matches Some(a) && 200 <= a.status < 300 && crate::laws::syncs::under(
            crate::json::decoded(a.body@),
            "user_id"@,
        ) == Some(JsonView::Text(user))) ==> {
            &&& final(daemon)@.tokens == old(daemon)@.tokens.insert(token@, user)
            &&& final(daemon)@.clients == old(daemon)@.clients
            &&& r is Some <==> old(daemon)@.clients.contains_key(user)
            &&& r matches Some(u) ==> u@ == user
        },
        !(response matches Some(a) && 200 <= a.status < 300) ==> {
            &&& final(daemon)@ == old(daemon)@
            &&& r is None
        },
        (response matches Some(a) && crate::json::decoded(a.body@) is None) ==> {
            &&& final(daemon)@ == old(daemon)@
            &&& r is None
        },
        (response matches Some(a) && crate::json::decoded(a.body@) is Some && crate::json::decoded(
            a.body@,
        ).unwrap() is Object && !(crate::laws::syncs::under(
            crate::json::decoded(a.body@),
            "user_id"@,
        ) matches Some(JsonView::Text(_)))) ==> {
            &&& final(daemon)@ == old(daemon)@
            &&& r is None
        },
{
}

/// A request that is passed on goes to the homeserver under the same method and target, with
/// the headers that go up and the same body.
pub proof fn requests_are_passed_on(
    daemon: ProxyDaemon,
    req: ClientRequest,
    r: UpstreamRequest,
)
    requires
        call_ensures(ProxyDaemon::forward_request, (&daemon, &req), r),
    ensures
        r.method@ == req.method@,
        req.target matches Some(t) ==> r.url@ == crate::text::strip_end(
            daemon@.server.homeserver,
            '/',
        ) + t@,
        crate::wire::header_views(r.headers@) == crate::laws::wire::going_up(
            crate::wire::header_views(req.headers@),
            false,
        ),
        req.body@.len() > 0 ==> (r.body matches Some(b) && b@ == req.body@),
        req.body@.len() == 0 ==> r.body is None,
{
    crate::laws::wire::lemma_going_up(crate::wire::header_views(req.headers@), false);
}

/// The homeserver is reached through the proxy of its settings, and its certificate is
/// checked unless the settings say that it has no TLS.
pub proof fn homeserver_is_reached(daemon: ProxyDaemon, r: HttpSettings)
    requires
        call_ensures(ProxyDaemon::http_settings, (&daemon,), r),
    ensures
        r.proxy is Some <==> daemon@.server.proxy is Some,
        r.proxy matches Some(p) ==> daemon@.server.proxy == Some(p@),
        r.accept_invalid_certs <==> !daemon@.server.ssl,
{
}

/// A session starts knowing nothing but its user, its device, its token and its server.
pub proof fn sessions_start_empty(
    user: String,
    device: String,
    token: String,
    server: crate::config::ServerConfig,
    r: Result<PanClient, crate::client::ClientError>,
    room: Seq<char>,
)
    requires
        call_ensures(PanClient::new, (user, device, token, server), r),
    ensures
        r matches Ok(c) ==> {
            &&& c@.user_id == user@
            &&& c@.device_id == device@
            &&& c@.access_token == token@
            &&& c@.server == server@
            &&& !c@.encrypted_rooms.contains(room)
            &&& !c@.active_sas.contains_key(room)
            &&& !c@.pending_requests.contains_key(room)
            &&& !c@.notified_invite.contains(room)
            &&& !c@.notified_show.contains(room)
            &&& c@.key_wishes.len() == 0
        },
        r is Ok <==> crate::ids::user_id_valid(user@),
{
}

/// A room that was noted as encrypted is known as such, and no other room is touched.
pub proof fn encrypted_rooms_are_known(
    client: &mut PanClient,
    room: &str,
    later: PanClient,
    other: &str,
    r: bool,
)
    requires
        call_ensures(PanClient::mark_room_encrypted, (client, room), ()),
        call_ensures(PanClient::is_room_encrypted, (&later, other), r),
    ensures
        later@ == final(client)@ ==> (r <==> other@ == room@ || old(
            client,
        )@.encrypted_rooms.contains(other@)),
{
}

/// A login whose answer was read comes to what the login with that answer comes to.
pub proof fn logins_are_noted_alike(
    daemon: &mut ProxyDaemon,
    store: &mut PanStore,
    response: UpstreamResponse,
    r: LoginOutcome,
    other_daemon: &mut ProxyDaemon,
    other_store: &mut PanStore,
    read: Option<LoginResponse>,
    other: LoginOutcome,
)
    requires
        call_ensures(take_login, (daemon, store, response), r),
        call_ensures(login, (other_daemon, other_store, response, read), other),
        call_ensures(read_login, (&response.body,), read),
        old(daemon)@ == old(other_daemon)@,
        old(store)@ == old(other_store)@,
    ensures
        final(daemon)@ == final(other_daemon)@,
        final(store)@ == final(other_store)@,
        r.response@ == other.response@,
        r.recorded is Some <==> other.recorded is Some,
        r.keyring is Some <==> other.keyring is Some,
        r.client is Some <==> other.client is Some,
{
}

/// What the homeserver says of a token counts where its status is in the two hundreds and it
/// names a user, and in no other case.
pub proof fn named_users_count(
    daemon: &mut ProxyDaemon,
    token: &str,
    status: Option<u16>,
    user: Option<String>,
    r: Option<String>,
)
    requires
        call_ensures(ProxyDaemon::whoami_answered, (daemon, token, status, user), r),
    ensures
        status matches Some(s) ==> (200 <= s < 300 ==> (user matches Some(u) ==> {
            &&& final(daemon)@.tokens == old(daemon)@.tokens.insert(token@, u@)
            &&& final(daemon)@.clients == old(daemon)@.clients
            &&& final(daemon)@.server == old(daemon)@.server
            &&& r is Some <==> old(daemon)@.clients.contains_key(u@)
            &&& r matches Some(found) ==> found@ == u@
        })),
        user is None || status is None || !(200 <= status.unwrap() < 300) ==> {
            &&& final(daemon)@ == old(daemon)@
            &&& r is None
        },
{
}

/// The sessions of a proxy are listed, each user once with the token.
pub proof fn sessions_are_listed(
    daemon: ProxyDaemon,
    r: Vec<(String, String)>,
    user: &str,
    known: bool,
    i: int,
    j: int,
)
    requires
        call_ensures(ProxyDaemon::sessions, (&daemon,), r),
        call_ensures(ProxyDaemon::has_client, (&daemon, user), known),
    ensures
        known <==> daemon@.clients.contains_key(user@),
        known <==> exists|k: int| 0 <= k < r@.len() && (#[trigger] r@[k]).0@ == user@,
        0 <= i < r@.len() ==> daemon@.clients.contains_key(r@[i].0@) && daemon@.clients[r@[i].0@]
            == r@[i].1@,
        0 <= i < j < r@.len() ==> r@[i].0@ != r@[j].0@,
{
    if 0 <= i < r@.len() {
        crate::maps::lemma_entry_held(r@, i);
    }
    if known {
        crate::maps::lemma_entry_found(r@, user@);
    }
    if exists|k: int| 0 <= k < r@.len() && (#[trigger] r@[k]).0@ == user@ {
        let k = choose|k: int| 0 <= k < r@.len() && (#[trigger] r@[k]).0@ == user@;
        crate::maps::lemma_entry_held(r@, k);
    }
}

/// A session tells who it is of, which token it has, which server it is with, and whether
/// devices are looked at there.
pub proof fn sessions_know_themselves(
    user_id: String,
    device_id: String,
    token: String,
    server: crate::config::ServerConfig,
    r: Result<PanClient, crate::client::ClientError>,
    user: &str,
    kept: &str,
    name: &str,
    homeserver: &str,
    ignores: bool,
)
    requires
        call_ensures(PanClient::new, (user_id, device_id, token, server), r),
        r is Ok,
        call_ensures(PanClient::user, (&r.unwrap(),), user),
        call_ensures(PanClient::token, (&r.unwrap(),), kept),
        call_ensures(PanClient::server_name, (&r.unwrap(),), name),
        call_ensures(PanClient::homeserver, (&r.unwrap(),), homeserver),
        call_ensures(PanClient::ignores_verification, (&r.unwrap(),), ignores),
    ensures
        user@ == user_id@,
        kept@ == token@,
        name@ == server.name@,
        homeserver@ == server.homeserver@,
        ignores == server.ignore_verification,
{
}

} // verus!
