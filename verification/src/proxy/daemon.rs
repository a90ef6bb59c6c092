//! The proxy of one homeserver: who is logged in through it, and how requests are
//! passed on.

use dashmap::DashMap;
use vstd::prelude::*;
use crate::config::ServerConfig;
use crate::json::Json;
use crate::maps::{get_text, new_texts, put_text, remove_text, text_entries};
use crate::store::ClientInfo;
use crate::wire::{
    forwarded_headers, text_header, upstream_url, ClientRequest, Header, UpstreamRequest,
    UpstreamResponse,
};

verus! {

/// The proxy of one homeserver.
#[derive(Debug)]
pub struct ProxyDaemon {
    server_conf: ServerConfig,
    /// The access tokens of the sessions, under their users.
    pan_clients: DashMap<String, String>,
    /// The users, under the access tokens that were seen.
    token_to_user: DashMap<String, String>,
}

/// What a proxy means.
#[verifier::ext_equal]
pub struct DaemonView {
    pub server: crate::config::ServerView,
    pub clients: Map<Seq<char>, Seq<char>>,
    pub tokens: Map<Seq<char>, Seq<char>>,
}

impl View for ProxyDaemon {
    type V = DaemonView;

    closed spec fn view(&self) -> DaemonView {
        DaemonView {
            server: self.server_conf@,
            clients: crate::maps::texts(self.pan_clients),
            tokens: crate::maps::texts(self.token_to_user),
        }
    }
}

/// How the homeserver is reached.
#[derive(Debug)]
pub struct HttpSettings {
    /// The URL of a proxy on the way.
    pub proxy: Option<String>,
    /// Whether a certificate that cannot be checked is good enough.
    pub accept_invalid_certs: bool,
}

/// Whose session a token belongs to.
#[derive(Debug)]
pub enum Resolution {
    /// That of a user with a session.
    Client(String),
    /// That of a user without one.
    NoClient,
    /// That is not known: the homeserver must be asked.
    Ask,
}

/// Whose session a token belongs to, as far as the proxy knows.
#[verifier::ext_equal]
pub enum ResolutionView {
    Client(Seq<char>),
    NoClient,
    Ask,
}

impl View for Resolution {
    type V = ResolutionView;

    open spec fn view(&self) -> ResolutionView {
        match *self {
            Resolution::Client(u) => ResolutionView::Client(u@),
            Resolution::NoClient => ResolutionView::NoClient,
            Resolution::Ask => ResolutionView::Ask,
        }
    }
}

/// The proxy after a session was registered: the user's token is the new one, and the
/// one before it is forgotten.
pub open spec fn registered(d: DaemonView, user: Seq<char>, token: Seq<char>) -> DaemonView {
    let tokens = if d.clients.contains_key(user) {
        d.tokens.remove(d.clients[user])
    } else {
        d.tokens
    };
    DaemonView {
        clients: d.clients.insert(user, token),
        tokens: tokens.insert(token, user),
        ..d
    }
}

/// Whose session a token belongs to, as far as the proxy knows.
pub open spec fn resolution(d: DaemonView, token: Seq<char>) -> ResolutionView {
    if d.tokens.contains_key(token) {
        if d.clients.contains_key(d.tokens[token]) {
            ResolutionView::Client(d.tokens[token])
        } else {
            ResolutionView::NoClient
        }
    } else {
        ResolutionView::Ask
    }
}

/// The proxy after the homeserver has said whose token it is.
pub open spec fn told_user(d: DaemonView, token: Seq<char>, user: Seq<char>) -> DaemonView {
    DaemonView { tokens: d.tokens.insert(token, user), ..d }
}

/// The user that the homeserver names: one in an answer of success.
pub open spec fn named_user(status: Option<u16>, user: Option<Seq<char>>) -> Option<Seq<char>> {
    match status {
        Some(s) => if crate::wire::is_success(s as nat) {
            user
        } else {
            None
        },
        None => None,
    }
}

/// The proxy after the homeserver was asked whose token it is.
pub open spec fn after_whoami(
    d: DaemonView,
    token: Seq<char>,
    status: Option<u16>,
    user: Option<Seq<char>>,
) -> DaemonView {
    match named_user(status, user) {
        Some(u) => told_user(d, token, u),
        None => d,
    }
}

/// The user that the homeserver names, where they have a session.
pub open spec fn session_named(
    d: DaemonView,
    status: Option<u16>,
    user: Option<Seq<char>>,
) -> Option<Seq<char>> {
    match named_user(status, user) {
        Some(u) => if d.clients.contains_key(u) {
            Some(u)
        } else {
            None
        },
        None => None,
    }
}

/// The question to the homeserver whose token it is.
pub open spec fn whoami(d: DaemonView, token: Seq<char>) -> crate::wire::UpstreamView {
    crate::wire::UpstreamView {
        method: "GET"@,
        url: crate::wire::base_of(d.server.homeserver) + "/_matrix/client/v3/whoami"@,
        headers: seq![("authorization"@, vstd::utf8::encode_utf8("Bearer "@ + token))],
        body: None,
    }
}

/// A request passed on to the homeserver.
pub open spec fn passed_on(d: DaemonView, req: ClientRequest) -> crate::wire::UpstreamView {
    crate::wire::UpstreamView {
        method: req.method@,
        url: crate::wire::base_of(d.server.homeserver) + match req.target {
            Some(t) => t@,
            None => ""@,
        },
        headers: crate::wire::forwarded(crate::wire::header_views(req.headers@), false),
        body: req.sent_body(),
    }
}

/// The token of a session that was registered is the user's, until the user logs in with
/// another one: the old token is then known no more, and the homeserver is asked whose it
/// is.
pub proof fn login_replaces_token(
    d: DaemonView,
    user: Seq<char>,
    first: Seq<char>,
    second: Seq<char>,
)
    ensures
        resolution(registered(d, user, first), first) == ResolutionView::Client(user),
        resolution(registered(registered(d, user, first), user, second), second)
            == ResolutionView::Client(user),
        first != second ==> resolution(
            registered(registered(d, user, first), user, second),
            first,
        ) == ResolutionView::Ask,
{
}

/// Registering the session of a user leaves every other token as it was, known or not, but
/// for the one that it replaces and for one that waited for the user to have a session.
pub proof fn others_stay_logged_in(
    d: DaemonView,
    user: Seq<char>,
    token: Seq<char>,
    other: Seq<char>,
)
    requires
        other != token,
        !(d.clients.contains_key(user) && d.clients[user] == other),
        !(d.tokens.contains_key(other) && d.tokens[other] == user && !d.clients.contains_key(user)),
    ensures
        resolution(registered(d, user, token), other) == resolution(d, other),
{
}

/// Once the homeserver has said whose token it is, it is not asked again.
pub proof fn asked_once(d: DaemonView, token: Seq<char>, user: Seq<char>)
    ensures
        resolution(told_user(d, token, user), token) != ResolutionView::Ask,
        resolution(told_user(d, token, user), token) == ResolutionView::Client(user)
            <==> d.clients.contains_key(user),
{
}

/// A token that is not known is that of a session exactly where the homeserver answers
/// with success and names a user who has one. It then is known and stays that session's
/// without another question. Where the homeserver does not name a user, the token stays
/// unknown and nothing changes.
pub proof fn homeserver_resolves(
    d: DaemonView,
    token: Seq<char>,
    status: Option<u16>,
    user: Option<Seq<char>>,
)
    requires
        resolution(d, token) is Ask,
    ensures
        session_named(d, status, user) matches Some(u) ==> {
            &&& named_user(status, user) == Some(u)
            &&& d.clients.contains_key(u)
            &&& resolution(after_whoami(d, token, status, user), token) == ResolutionView::Client(u)
        },
        session_named(d, status, user) is None ==> {
            &&& named_user(status, user) matches Some(u) ==> !d.clients.contains_key(u)
            &&& resolution(after_whoami(d, token, status, user), token) !is Client
        },
        named_user(status, user) is None ==> after_whoami(d, token, status, user) == d,
        after_whoami(d, token, status, user).clients == d.clients,
{
}

impl ProxyDaemon {
    /// The proxy of a homeserver through which nobody is logged in.
    pub fn new(server_conf: ServerConfig) -> (r: ProxyDaemon)
        ensures
            r@ == (DaemonView {
                server: server_conf@,
                clients: Map::empty(),
                tokens: Map::empty(),
            }),
    {
        let d = ProxyDaemon {
            server_conf,
            pan_clients: new_texts(),
            token_to_user: new_texts(),
        };
        assert(d@.clients =~= Map::empty());
        assert(d@.tokens =~= Map::empty());
        d
    }

    /// The name of the server.
    pub fn name(&self) -> (r: &str)
        ensures
            r@ == self@.server.name,
    {
        self.server_conf.name.as_str()
    }

    /// The settings of the server.
    pub fn config(&self) -> (r: &ServerConfig)
        ensures
            r@ == self@.server,
    {
        &self.server_conf
    }

    /// How the homeserver is reached: through the proxy of the settings, and with any
    /// certificate where they say that it has no TLS.
    pub fn http_settings(&self) -> (r: HttpSettings)
        ensures
            crate::client::sync::optional_text(r.proxy) == self@.server.proxy,
            r.accept_invalid_certs == !self@.server.ssl,
    {
        HttpSettings {
            proxy: match &self.server_conf.proxy {
                Some(p) => Some(p.clone()),
                None => None,
            },
            accept_invalid_certs: !self.server_conf.ssl,
        }
    }

    /// Registers a session. The token that the user had before stops working.
    pub fn register_client(&mut self, client: &ClientInfo)
        ensures
            final(self)@ == registered(old(self)@, client.user_id@, client.access_token@),
    {
        match get_text(&self.pan_clients, client.user_id.as_str()) {
            Some(token) => {
                remove_text(&mut self.token_to_user, token.as_str());
            },
            None => {},
        }
        put_text(&mut self.token_to_user, client.access_token.clone(), client.user_id.clone());
        put_text(&mut self.pan_clients, client.user_id.clone(), client.access_token.clone());
    }

    /// Whether a user has a session here.
    pub fn has_client(&self, user_id: &str) -> (r: bool)
        ensures
            r == self@.clients.contains_key(user_id@),
    {
        get_text(&self.pan_clients, user_id).is_some()
    }

    /// The users with a session here, in no set order, each with the token of the session.
    pub fn sessions(&self) -> (r: Vec<(String, String)>)
        ensures
            crate::maps::entries_map(r@) == self@.clients,
            forall|i: int, j: int|
                0 <= i < j < r@.len() ==> (#[trigger] r@[i]).0@ != (#[trigger] r@[j]).0@,
    {
        text_entries(&self.pan_clients)
    }

    /// Whether a token belongs to a user with a session here.
    pub fn is_known_token(&self, token: &str) -> (r: bool)
        ensures
            r == (resolution(self@, token@) is Client),
    {
        match self.resolve_client(token) {
            Resolution::Client(_) => true,
            _ => false,
        }
    }

    /// Whose session a token belongs to.
    pub fn resolve_client(&self, token: &str) -> (r: Resolution)
        ensures
            r@ == resolution(self@, token@),
    {
        match get_text(&self.token_to_user, token) {
            Some(user) => if self.has_client(user.as_str()) {
                Resolution::Client(user)
            } else {
                Resolution::NoClient
            },
            None => Resolution::Ask,
        }
    }

    /// The question to the homeserver whose token it is.
    pub fn whoami_request(&self, token: &str) -> (r: UpstreamRequest)
        ensures
            r@ == whoami(self@, token@),
    {
        let value = "Bearer ".to_owned().concat(token);
        let mut headers: Vec<Header> = Vec::new();
        headers.push(text_header("authorization", value.as_str()));
        let r = UpstreamRequest {
            method: "GET".to_owned(),
            url: upstream_url(
                self.server_conf.homeserver.as_str(),
                "/_matrix/client/v3/whoami",
            ),
            headers,
            body: None,
        };
        assert(r@.headers =~= seq![
            ("authorization"@, vstd::utf8::encode_utf8("Bearer "@ + token@)),
        ]);
        r
    }

    /// Takes note of whose token it is, where the homeserver has said so, and tells the
    /// user where they have a session. `status` is that of its answer, unless it could not
    /// be reached, and `user` the one in the body, where there is one.
    pub fn whoami_answered(&mut self, token: &str, status: Option<u16>, user: Option<String>) -> (r:
        Option<String>)
        ensures
            final(self)@ == after_whoami(
                old(self)@,
                token@,
                status,
                crate::client::sync::optional_text(user),
            ),
            crate::client::sync::optional_text(r) == session_named(
                old(self)@,
                status,
                crate::client::sync::optional_text(user),
            ),
    {
        let succeeded = match status {
            Some(s) => 200 <= s && s < 300,
            None => false,
        };
        match user {
            Some(u) => if succeeded {
                put_text(&mut self.token_to_user, token.to_owned(), u.clone());
                if self.has_client(u.as_str()) {
                    Some(u)
                } else {
                    None
                }
            } else {
                None
            },
            None => None,
        }
    }

    /// Takes the answer of the homeserver to the question whose token it is, unless it could
    /// not be reached, and tells the user where they have a session.
    pub fn take_whoami(&mut self, token: &str, response: &Option<UpstreamResponse>) -> (r: Option<
        String,
    >)
        ensures
            ({
                let (status, user) = match response {
                    Some(a) => (Some(a.status), crate::json::said(a.body@, "user_id"@, 0, 1)),
                    None => (None, None),
                };
                &&& final(self)@ == after_whoami(old(self)@, token@, status, user)
                &&& crate::client::sync::optional_text(r) == session_named(
                    old(self)@,
                    status,
                    user,
                )
            }),
    {
        match response {
            Some(a) => self.whoami_answered(
                token,
                Some(a.status),
                Json::text_in(a.body.as_slice(), "user_id", 0, 1),
            ),
            None => self.whoami_answered(token, None, None),
        }
    }

    /// Passes a request on to the homeserver.
    pub fn forward_request(&self, req: &ClientRequest) -> (r: UpstreamRequest)
        ensures
            r@ == passed_on(self@, *req),
    {
        let target = match &req.target {
            Some(t) => t.as_str(),
            None => "",
        };
        UpstreamRequest {
            method: req.method.clone(),
            url: upstream_url(self.server_conf.homeserver.as_str(), target),
            headers: forwarded_headers(&req.headers, false),
            body: req.body_to_send(),
        }
    }
}

} // verus!
