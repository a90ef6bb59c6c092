//! The proxy: its routes and what each of them does.

pub mod daemon;
pub mod media;
pub mod routes;
pub mod send;

use vstd::prelude::*;

verus! {

/// The method of a route.
#[derive(Debug, Clone, Copy, PartialEq, Eq, Structural)]
pub enum Method {
    Get,
    Post,
    Put,
    Options,
}

/// What serves a route.
#[derive(Debug, Clone, Copy, PartialEq, Eq, Structural)]
pub enum Handler {
    ProxyPass,
    Login,
    Sync,
    CreateRoom,
    Messages,
    SendMessage,
    Filter,
    WellKnown,
    Search,
    SearchOpts,
    Download,
    Upload,
    Profile,
}

/// A route: a pattern of paths, in which a colon begins the name of a segment.
#[derive(Debug)]
pub struct Route {
    pub path: String,
    pub method: Method,
    pub handler: Handler,
}

/// What a route means.
pub type RouteView = (Seq<char>, Method, Handler);

impl View for Route {
    type V = RouteView;

    open spec fn view(&self) -> RouteView {
        (self.path@, self.method, self.handler)
    }
}

/// The routes of the client API in one of its versions, without their common beginning.
pub open spec fn client_endpoints() -> Seq<RouteView> {
    seq![
        ("/login"@, Method::Get, Handler::ProxyPass),
        ("/login"@, Method::Post, Handler::Login),
        ("/sync"@, Method::Get, Handler::Sync),
        ("/createRoom"@, Method::Post, Handler::CreateRoom),
        ("/rooms/:room_id/messages"@, Method::Get, Handler::Messages),
        ("/rooms/:room_id/send/:event_type/:txnid"@, Method::Put, Handler::SendMessage),
        ("/user/:user_id/filter"@, Method::Post, Handler::Filter),
        ("/search"@, Method::Post, Handler::Search),
        ("/search"@, Method::Options, Handler::SearchOpts),
        ("/profile/:user_id/avatar_url"@, Method::Get, Handler::ProxyPass),
        ("/profile/:user_id/avatar_url"@, Method::Put, Handler::Profile),
    ]
}

/// The download routes of the media API in one of its versions, without their common
/// beginning.
pub open spec fn download_endpoints() -> Seq<RouteView> {
    seq![
        ("/download/:server_name/:media_id"@, Method::Get, Handler::Download),
        ("/download/:server_name/:media_id/:file_name"@, Method::Get, Handler::Download),
    ]
}

/// The upload route of the media API in one of its versions, without its beginning.
pub open spec fn upload_endpoints() -> Seq<RouteView> {
    seq![("/upload"@, Method::Post, Handler::Upload)]
}

/// Routes under a common beginning.
pub open spec fn under(prefix: Seq<char>, routes: Seq<RouteView>) -> Seq<RouteView> {
    routes.map_values(|r: RouteView| (prefix + r.0, r.1, r.2))
}

/// The discovery routes.
pub open spec fn discovery_endpoints() -> Seq<RouteView> {
    seq![
        ("/.well-known/matrix/client"@, Method::Get, Handler::WellKnown),
        ("/.well-known/matrix/client"@, Method::Post, Handler::WellKnown),
    ]
}

/// All routes. What matches none of them is passed on.
pub open spec fn all_routes() -> Seq<RouteView> {
    under("/_matrix/client/r0"@, client_endpoints()) + under(
        "/_matrix/client/v3"@,
        client_endpoints(),
    ) + discovery_endpoints() + under("/_matrix/media/v1"@, download_endpoints()) + under(
        "/_matrix/media/v3"@,
        download_endpoints(),
    ) + under("/_matrix/media/r0"@, download_endpoints()) + under(
        "/_matrix/media/r0"@,
        upload_endpoints(),
    ) + under("/_matrix/media/v3"@, upload_endpoints())
}

/// What a list of routes means.
pub open spec fn route_views(routes: Seq<Route>) -> Seq<RouteView> {
    routes.map_values(|r: Route| r@)
}

/// Adds a route.
fn add_route(routes: &mut Vec<Route>, prefix: &str, path: &str, method: Method, handler: Handler)
    ensures
        route_views(final(routes)@) == route_views(old(routes)@).push(
            (prefix@ + path@, method, handler),
        ),
{
    let ghost before = route_views(routes@);
    let route = Route { path: prefix.to_owned().concat(path), method, handler };
    routes.push(route);
    assert(route_views(routes@) =~= before.push(route@));
}

/// Adds the routes of the client API in one of its versions.
fn add_client_routes(routes: &mut Vec<Route>, prefix: &str)
    ensures
        route_views(final(routes)@) == route_views(old(routes)@) + under(
            prefix@,
            client_endpoints(),
        ),
{
    let ghost before = route_views(routes@);
    add_route(routes, prefix, "/login", Method::Get, Handler::ProxyPass);
    add_route(routes, prefix, "/login", Method::Post, Handler::Login);
    add_route(routes, prefix, "/sync", Method::Get, Handler::Sync);
    add_route(routes, prefix, "/createRoom", Method::Post, Handler::CreateRoom);
    add_route(routes, prefix, "/rooms/:room_id/messages", Method::Get, Handler::Messages);
    add_route(
        routes,
        prefix,
        "/rooms/:room_id/send/:event_type/:txnid",
        Method::Put,
        Handler::SendMessage,
    );
    add_route(routes, prefix, "/user/:user_id/filter", Method::Post, Handler::Filter);
    add_route(routes, prefix, "/search", Method::Post, Handler::Search);
    add_route(routes, prefix, "/search", Method::Options, Handler::SearchOpts);
    add_route(routes, prefix, "/profile/:user_id/avatar_url", Method::Get, Handler::ProxyPass);
    add_route(routes, prefix, "/profile/:user_id/avatar_url", Method::Put, Handler::Profile);
    assert(route_views(routes@) =~= before + under(prefix@, client_endpoints()));
}

/// Adds the download routes of the media API in one of its versions.
fn add_download_routes(routes: &mut Vec<Route>, prefix: &str)
    ensures
        route_views(final(routes)@) == route_views(old(routes)@) + under(
            prefix@,
            download_endpoints(),
        ),
{
    let ghost before = route_views(routes@);
    add_route(
        routes,
        prefix,
        "/download/:server_name/:media_id",
        Method::Get,
        Handler::Download,
    );
    add_route(
        routes,
        prefix,
        "/download/:server_name/:media_id/:file_name",
        Method::Get,
        Handler::Download,
    );
    assert(route_views(routes@) =~= before + under(prefix@, download_endpoints()));
}

/// Adds the upload route of the media API in one of its versions.
fn add_upload_route(routes: &mut Vec<Route>, prefix: &str)
    ensures
        route_views(final(routes)@) == route_views(old(routes)@) + under(
            prefix@,
            upload_endpoints(),
        ),
{
    let ghost before = route_views(routes@);
    add_route(routes, prefix, "/upload", Method::Post, Handler::Upload);
    assert(route_views(routes@) =~= before + under(prefix@, upload_endpoints()));
}

/// All routes of the proxy. What matches none of them is passed on.
pub fn build_router() -> (r: Vec<Route>)
    ensures
        route_views(r@) == all_routes(),
{
    let mut routes: Vec<Route> = Vec::new();
    assert(route_views(routes@) =~= Seq::empty());
    add_client_routes(&mut routes, "/_matrix/client/r0");
    add_client_routes(&mut routes, "/_matrix/client/v3");
    let ghost before = route_views(routes@);
    add_route(&mut routes, "", "/.well-known/matrix/client", Method::Get, Handler::WellKnown);
    add_route(&mut routes, "", "/.well-known/matrix/client", Method::Post, Handler::WellKnown);
    proof {
        reveal_strlit("");
        assert(""@ + "/.well-known/matrix/client"@ =~= "/.well-known/matrix/client"@);
        assert(route_views(routes@) =~= before + discovery_endpoints());
    }
    add_download_routes(&mut routes, "/_matrix/media/v1");
    add_download_routes(&mut routes, "/_matrix/media/v3");
    add_download_routes(&mut routes, "/_matrix/media/r0");
    add_upload_route(&mut routes, "/_matrix/media/r0");
    add_upload_route(&mut routes, "/_matrix/media/v3");
    assert(route_views(routes@) =~= all_routes());
    routes
}

/// The two versions of the client API are served alike: what stands under one stands
/// under the other, with the same method and handler.
pub proof fn versions_alike(rest: Seq<char>, method: Method, handler: Handler)
    requires
        client_endpoints().contains((rest, method, handler)),
    ensures
        all_routes().contains(("/_matrix/client/r0"@ + rest, method, handler)),
        all_routes().contains(("/_matrix/client/v3"@ + rest, method, handler)),
{
    let i = choose|i: int|
        0 <= i < client_endpoints().len() && client_endpoints()[i] == (rest, method, handler);
    let n = client_endpoints().len() as int;
    let old_routes = under("/_matrix/client/r0"@, client_endpoints());
    let new_routes = under("/_matrix/client/v3"@, client_endpoints());
    assert(all_routes()[i] == old_routes[i]);
    assert(all_routes()[n + i] == new_routes[i]);
}

/// Texts with a common beginning differ where the rest differs.
proof fn lemma_rest_differs(prefix: Seq<char>, a: Seq<char>, b: Seq<char>)
    requires
        a != b,
    ensures
        prefix + a != prefix + b,
{
    if prefix + a == prefix + b {
        assert((prefix + a).skip(prefix.len() as int) =~= a);
        assert((prefix + b).skip(prefix.len() as int) =~= b);
    }
}

/// No two routes of the client API in one of its versions serve one method of one path.
proof fn lemma_client_distinct(i: int, j: int)
    requires
        0 <= i < j < client_endpoints().len(),
    ensures
        client_endpoints()[i].0 != client_endpoints()[j].0 || client_endpoints()[i].1
            != client_endpoints()[j].1,
{
    reveal_strlit("/login");
    reveal_strlit("/sync");
    reveal_strlit("/createRoom");
    reveal_strlit("/rooms/:room_id/messages");
    reveal_strlit("/rooms/:room_id/send/:event_type/:txnid");
    reveal_strlit("/user/:user_id/filter");
    reveal_strlit("/search");
    reveal_strlit("/profile/:user_id/avatar_url");
    assert("/login"@.len() == 6 && "/sync"@.len() == 5 && "/createRoom"@.len() == 11
        && "/rooms/:room_id/messages"@.len() == 24
        && "/rooms/:room_id/send/:event_type/:txnid"@.len() == 39 && "/user/:user_id/filter"@.len()
        == 21 && "/search"@.len() == 7 && "/profile/:user_id/avatar_url"@.len() == 28);
}

/// Where a route stands among all of them: the beginning of its path, and the rest.
spec fn split_route(i: int) -> (Seq<char>, RouteView) {
    if i < 11 {
        ("/_matrix/client/r0"@, client_endpoints()[i])
    } else if i < 22 {
        ("/_matrix/client/v3"@, client_endpoints()[i - 11])
    } else if i < 24 {
        (Seq::empty(), discovery_endpoints()[i - 22])
    } else if i < 26 {
        ("/_matrix/media/v1"@, download_endpoints()[i - 24])
    } else if i < 28 {
        ("/_matrix/media/v3"@, download_endpoints()[i - 26])
    } else if i < 30 {
        ("/_matrix/media/r0"@, download_endpoints()[i - 28])
    } else if i < 31 {
        ("/_matrix/media/r0"@, upload_endpoints()[0])
    } else {
        ("/_matrix/media/v3"@, upload_endpoints()[0])
    }
}

/// A route is its beginning and its rest.
proof fn lemma_split_route(i: int)
    requires
        0 <= i < 32,
    ensures
        all_routes().len() == 32,
        all_routes()[i] == (split_route(i).0 + split_route(i).1.0, split_route(i).1.1, split_route(
            i,
        ).1.2),
{
    assert(client_endpoints().len() == 11);
    assert(discovery_endpoints().len() == 2);
    assert(download_endpoints().len() == 2);
    assert(upload_endpoints().len() == 1);
    if 22 <= i < 24 {
        assert(Seq::<char>::empty() + discovery_endpoints()[i - 22].0
            =~= discovery_endpoints()[i - 22].0);
    }
}

/// Every method of every path has one handler: no two routes serve the same.
pub proof fn routes_distinct(i: int, j: int)
    requires
        0 <= i < j < all_routes().len(),
    ensures
        all_routes()[i].0 != all_routes()[j].0 || all_routes()[i].1 != all_routes()[j].1,
{
    lemma_split_route(0);
    lemma_split_route(i);
    lemma_split_route(j);
    let (p, a) = split_route(i);
    let (q, b) = split_route(j);
    reveal_strlit("/_matrix/client/r0");
    reveal_strlit("/_matrix/client/v3");
    reveal_strlit("/_matrix/media/v1");
    reveal_strlit("/_matrix/media/v3");
    reveal_strlit("/_matrix/media/r0");
    reveal_strlit("/.well-known/matrix/client");
    reveal_strlit("/download/:server_name/:media_id");
    reveal_strlit("/download/:server_name/:media_id/:file_name");
    reveal_strlit("/upload");
    let old_client = "/_matrix/client/r0"@;
    let new_client = "/_matrix/client/v3"@;
    let media1 = "/_matrix/media/v1"@;
    let media3 = "/_matrix/media/v3"@;
    let media0 = "/_matrix/media/r0"@;
    assert(old_client.len() == 18 && new_client.len() == 18);
    assert(media1.len() == 17 && media3.len() == 17 && media0.len() == 17);
    assert(old_client[1] == '_' && old_client[9] == 'c' && old_client[16] == 'r');
    assert(new_client[1] == '_' && new_client[9] == 'c' && new_client[16] == 'v');
    assert(media1[1] == '_' && media1[9] == 'm' && media1[15] == 'v' && media1[16] == '1');
    assert(media3[1] == '_' && media3[9] == 'm' && media3[15] == 'v' && media3[16] == '3');
    assert(media0[1] == '_' && media0[9] == 'm' && media0[15] == 'r');
    assert("/.well-known/matrix/client"@[1] == '.');
    assert("/download/:server_name/:media_id"@.len() == 32);
    assert("/download/:server_name/:media_id/:file_name"@.len() == 43);
    assert("/upload"@.len() == 7);
    if p == q {
        if j < 11 {
            lemma_client_distinct(i, j);
        } else if 11 <= i && j < 22 {
            lemma_client_distinct(i - 11, j - 11);
        }
        if a.0 != b.0 {
            lemma_rest_differs(p, a.0, b.0);
        }
    } else {
        let x = all_routes()[i].0;
        let y = all_routes()[j].0;
        assert(x == p + a.0 && y == q + b.0);
        assert(x[1] != y[1] || x[9] != y[9] || x[15] != y[15] || x[16] != y[16]);
    }
}

} // verus!
