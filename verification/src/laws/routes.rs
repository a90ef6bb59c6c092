//! Laws of what the proxy does with the requests of clients and the answers to them.

use vstd::prelude::*;
use crate::client::events::DecryptJob;
use crate::client::sync::Invite;
use crate::client::PanClient;
use crate::error::{error_response, AppError};
use crate::json::{Json, JsonView};
use crate::messages::DaemonToUi;
use crate::proxy::daemon::ProxyDaemon;
use crate::proxy::routes::{
    answer_plan, create_room, extract_token, filter, finish_messages, finish_sync, messages,
    messages_jobs, pass_back, profile, proxy_pass, rewritable_body, search, search_opts, sync,
    well_known, AnswerPlan, MessagesPlan, SearchPlan, SyncPlan,
};
use crate::proxy::{build_router, Handler, Method, Route};
use crate::wire::{ClientRequest, ProxyResponse, UpstreamRequest, UpstreamResponse};

verus! {

/// Whether a request to the homeserver is one of a client as it came, but for the headers that
/// stay behind.
pub open spec fn as_it_came(u: UpstreamRequest, req: ClientRequest, homeserver: Seq<char>) -> bool {
    &&& u.method@ == req.method@
    &&& req.target matches Some(t) ==> u.url@ == crate::text::strip_end(homeserver, '/') + t@
    &&& crate::wire::header_views(u.headers@) == crate::laws::wire::going_up(
        crate::wire::header_views(req.headers@),
        false,
    )
    &&& u.body is Some <==> req.body@.len() > 0
    &&& u.body matches Some(b) ==> b@ == req.body@
}

/// Whether a response to a client is one of the homeserver with a body.
pub open spec fn answers_with(r: ProxyResponse, response: UpstreamResponse, body: Seq<u8>) -> bool {
    &&& 100 <= response.status < 1000 ==> r.status == response.status
    &&& crate::wire::header_views(r.headers@) == crate::laws::wire::coming_down(
        crate::wire::header_views(response.headers@),
    )
    &&& r.body@ == body
}

/// What is merely passed on goes to the homeserver as it came, whatever it is about.
pub proof fn requests_are_merely_passed_on(
    daemon: ProxyDaemon,
    req: ClientRequest,
    passed: UpstreamRequest,
    created: UpstreamRequest,
    filtered: UpstreamRequest,
    profiled: UpstreamRequest,
    found: UpstreamRequest,
)
    requires
        call_ensures(proxy_pass, (&daemon, &req), passed),
        call_ensures(create_room, (&daemon, &req), created),
        call_ensures(filter, (&daemon, &req), filtered),
        call_ensures(profile, (&daemon, &req), profiled),
        call_ensures(well_known, (&daemon, &req), found),
    ensures
        as_it_came(passed, req, daemon@.server.homeserver),
        as_it_came(created, req, daemon@.server.homeserver),
        as_it_came(filtered, req, daemon@.server.homeserver),
        as_it_came(profiled, req, daemon@.server.homeserver),
        as_it_came(found, req, daemon@.server.homeserver),
        req.target is None ==> passed.url@ == crate::text::strip_end(
            daemon@.server.homeserver,
            '/',
        ),
{
    crate::laws::wire::lemma_going_up(crate::wire::header_views(req.headers@), false);
    reveal_strlit("");
    let base = crate::text::strip_end(daemon@.server.homeserver, '/');
    assert(base + ""@ =~= base);
}

/// The homeserver gets every sync as the client sent it. The answer is rewritten for the
/// session of the token where the client has one and says where it stands, and in no other
/// case.
pub proof fn syncs_are_planned(
    daemon: ProxyDaemon,
    req: ClientRequest,
    r: SyncPlan,
    found: Option<String>,
)
    requires
        call_ensures(sync, (&daemon, &req), r),
        call_ensures(extract_token, (&req,), found),
    ensures
        match r {
            SyncPlan::Forward(u) => as_it_came(u, req, daemon@.server.homeserver),
            SyncPlan::Process { request, token } => as_it_came(
                request,
                req,
                daemon@.server.homeserver,
            ) && found.unwrap()@ == token@,
        },
        r is Process ==> found is Some && (req.query matches Some(q)
            && !crate::laws::sessions::no_parameter(q@, "since="@)),
        found is Some ==> (req.query matches Some(q) ==> (!crate::laws::sessions::no_parameter(
            q@,
            "since="@,
        ) ==> r is Process)),
{
    crate::laws::wire::lemma_going_up(crate::wire::header_views(req.headers@), false);
    if let Some(q) = req.query {
        crate::laws::sessions::lemma_parameter(crate::text::split_on(q@, '&'), "since="@);
        let pieces = crate::text::split_on(q@, '&');
        if let Some(value) = crate::text::first_after_prefix(pieces, "since="@) {
            let i = choose|i: int|
                0 <= i < pieces.len() && (#[trigger] pieces[i]) == "since="@ + value && forall|
                    j: int,
                | 0 <= j < i ==> !"since="@.is_prefix_of(#[trigger] pieces[j]);
            assert(pieces[i].subrange(0, "since="@.len() as int) =~= "since="@);
            assert("since="@.is_prefix_of(pieces[i]));
        }
    }
}

/// Whether a room is the first in a path whose identifier, once escapes are read, begins as
/// one of a room does.
pub open spec fn first_room(path: Seq<char>, room: Seq<char>) -> bool {
    let segments = crate::text::split_on(path, '/');
    exists|i: int|
        0 <= i < segments.len() && crate::wire::segment_text(#[trigger] segments[i]) == room
            && names_room(room) && forall|j: int|
            0 <= j < i ==> !names_room(crate::wire::segment_text(#[trigger] segments[j]))
}

/// Whether a text begins as the identifier of a room does.
pub open spec fn names_room(text: Seq<char>) -> bool {
    text.len() > 0 && text[0] == '!'
}

/// Whether no segment of a path begins as the identifier of a room does.
pub open spec fn no_room(path: Seq<char>) -> bool {
    let segments = crate::text::split_on(path, '/');
    forall|i: int|
        0 <= i < segments.len() ==> !names_room(crate::wire::segment_text(#[trigger] segments[i]))
}

/// The prefix of a room.
proof fn lemma_names_room(text: Seq<char>)
    ensures
        "!"@.is_prefix_of(text) <==> names_room(text),
{
    reveal_strlit("!");
    if names_room(text) {
        assert(text.subrange(0, 1) =~= "!"@);
    }
    if "!"@.is_prefix_of(text) {
        assert(text.subrange(0, 1) =~= "!"@);
        assert(text[0] == "!"@[0]);
    }
}

/// The room that is found among segments.
proof fn lemma_room(segments: Seq<Seq<char>>)
    ensures
        match crate::proxy::routes::room_in(segments) {
            Some(room) => names_room(room) && exists|i: int|
                0 <= i < segments.len() && crate::wire::segment_text(#[trigger] segments[i]) == room
                    && forall|j: int|
                    0 <= j < i ==> !names_room(crate::wire::segment_text(#[trigger] segments[j])),
            None => forall|i: int|
                0 <= i < segments.len() ==> !names_room(
                    crate::wire::segment_text(#[trigger] segments[i]),
                ),
        },
    decreases segments.len(),
{
    if segments.len() > 0 {
        let text = crate::wire::segment_text(segments[0]);
        lemma_names_room(text);
        if !names_room(text) {
            let rest = segments.drop_first();
            lemma_room(rest);
            match crate::proxy::routes::room_in(rest) {
                Some(room) => {
                    let i = choose|i: int|
                        0 <= i < rest.len() && crate::wire::segment_text(#[trigger] rest[i]) == room
                            && forall|j: int|
                            0 <= j < i ==> !names_room(
                                crate::wire::segment_text(#[trigger] rest[j]),
                            );
                    assert(segments[i + 1] == rest[i]);
                    assert forall|j: int| 0 <= j < i + 1 implies !names_room(
                        crate::wire::segment_text(#[trigger] segments[j]),
                    ) by {
                        if j > 0 {
                            assert(segments[j] == rest[j - 1]);
                        }
                    }
                },
                None => {
                    assert forall|j: int| 0 <= j < segments.len() implies !names_room(
                        crate::wire::segment_text(#[trigger] segments[j]),
                    ) by {
                        if j > 0 {
                            assert(segments[j] == rest[j - 1]);
                        }
                    }
                },
            }
        }
    }
}

/// The homeserver gets every request for the history of a room as the client sent it. The
/// answer is rewritten for the session of the token, and for the room in the path, where
/// there are both.
pub proof fn histories_are_planned(
    daemon: ProxyDaemon,
    req: ClientRequest,
    r: MessagesPlan,
    found: Option<String>,
)
    requires
        call_ensures(messages, (&daemon, &req), r),
        call_ensures(extract_token, (&req,), found),
    ensures
        match r {
            MessagesPlan::PassBack(u) => as_it_came(u, req, daemon@.server.homeserver) && (
            found is None || no_room(req.path@)),
            MessagesPlan::Process { request, token, room_id } => as_it_came(
                request,
                req,
                daemon@.server.homeserver,
            ) && found is Some && found.unwrap()@ == token@ && first_room(req.path@, room_id@),
        },
{
    crate::laws::wire::lemma_going_up(crate::wire::header_views(req.headers@), false);
    lemma_room(crate::text::split_on(req.path@, '/'));
}

/// An answer is rewritten for the session that its request belongs to where it is a success
/// and JSON; else the client gets it as it came.
pub proof fn answers_are_planned(
    response: UpstreamResponse,
    session: Option<String>,
    r: AnswerPlan,
    read: Option<Json>,
    passed: ProxyResponse,
)
    requires
        call_ensures(answer_plan, (&response, session), r),
        call_ensures(rewritable_body, (&response,), read),
        call_ensures(pass_back, (&response,), passed),
    ensures
        r is Rewrite <==> session is Some && 200 <= response.status < 300 && crate::json::decoded(
            response.body@,
        ) is Some,
        match r {
            AnswerPlan::Rewrite { user_id, body } => session.unwrap()@ == user_id@
                && crate::json::decoded(response.body@) == Some(body@),
            AnswerPlan::PassBack(a) => answers_with(a, response, response.body@),
        },
        read is Some <==> 200 <= response.status < 300 && crate::json::decoded(
            response.body@,
        ) is Some,
        read matches Some(j) ==> crate::json::decoded(response.body@) == Some(j@),
        answers_with(passed, response, response.body@),
{
    crate::laws::wire::lemma_coming_down(crate::wire::header_views(response.headers@));
}

/// A sync is finished by noting the requests for keys in it and processing it: the client
/// gets the answer of the homeserver with the processed body, the session is as these two
/// leave it, and the user interface is told what processing tells, and what noting does.
pub proof fn syncs_are_finished(
    client: &mut PanClient,
    response: UpstreamResponse,
    body: Json,
    decrypted: Vec<(DecryptJob, Json)>,
    found: Vec<(Invite, String)>,
    r: (ProxyResponse, Vec<DaemonToUi>),
    noting: &mut PanClient,
    keys: Vec<DaemonToUi>,
    processing: &mut PanClient,
    processed: &mut Json,
    invites: Vec<DaemonToUi>,
)
    requires
        call_ensures(finish_sync, (client, &response, body, &decrypted, &found), r),
        call_ensures(PanClient::note_key_requests, (noting, &body), keys),
        call_ensures(
            PanClient::process_sync,
            (processing, processed, &decrypted, &found),
            invites,
        ),
        old(noting)@ == old(client)@,
        old(processed)@ == body@,
    ensures
        crate::json::reads_back(final(processed)@) ==> crate::json::decoded(r.0.body@) == Some(
            final(processed)@,
        ),
        answers_with(r.0, response, r.0.body@),
        old(processing)@ == final(noting)@ ==> {
            &&& final(client)@ == final(processing)@
            &&& crate::messages::ui_views(r.1@) == crate::messages::ui_views(invites@)
                + crate::messages::ui_views(keys@)
        },
{
    crate::laws::wire::lemma_coming_down(crate::wire::header_views(response.headers@));
}

/// The events in an answer with the history of a room.
pub open spec fn history(body: JsonView) -> Seq<JsonView> {
    crate::laws::syncs::items(crate::laws::syncs::under(Some(body), "chunk"@))
}

/// The events of a history that are decrypted are those that are encrypted, each for its room
/// and its place, in their order.
pub proof fn encrypted_history_is_found(
    body: Json,
    room: &str,
    r: Vec<DecryptJob>,
    k: int,
    l: int,
    i: int,
)
    requires
        call_ensures(messages_jobs, (&body, room), r),
    ensures
        0 <= k < r@.len() ==> {
            &&& r@[k].room_id@ == room@
            &&& r@[k].index < history(body@).len()
            &&& r@[k].event@ == history(body@)[r@[k].index as int]
            &&& crate::laws::syncs::typed(r@[k].event@, "m.room.encrypted"@)
        },
        0 <= k < l < r@.len() ==> r@[k].index < r@[l].index,
        room@.len() > 0 && room@[0] == '!' && !room@.contains('\0') && 0 <= i < history(
            body@,
        ).len() && crate::laws::syncs::typed(history(body@)[i], "m.room.encrypted"@) ==> exists|
            n: int,
        | 0 <= n < r@.len() && (#[trigger] r@[n]).index == i,
{
    let jobs = crate::client::events::job_views(r@);
    let events = crate::proxy::routes::chunk(body@);
    assert(events =~= history(body@));
    if 0 <= k < r@.len() {
        assert(jobs[k] == r@[k]@);
    }
    if 0 <= l < r@.len() {
        assert(jobs[l] == r@[l]@);
    }
    if room@.len() > 0 && room@[0] == '!' && !room@.contains('\0') && 0 <= i < history(body@).len()
        && crate::laws::syncs::typed(history(body@)[i], "m.room.encrypted"@) {
        assert(crate::client::events::encrypted_event(events[i]));
        let n = choose|n: int| 0 <= n < jobs.len() && (#[trigger] jobs[n]).index == i;
        assert(jobs[n] == r@[n]@);
    }
}

/// Whether each of a list of decrypted events is the one at its place in a history, and no two
/// are at one place.
pub open spec fn in_history(body: JsonView, decrypted: Seq<(DecryptJob, Json)>) -> bool {
    &&& forall|k: int|
        0 <= k < decrypted.len() ==> {
            let job = (#[trigger] decrypted[k]).0;
            job.index < history(body).len() && history(body)[job.index as int] == job.event@
        }
    &&& forall|k: int, l: int|
        0 <= k < l < decrypted.len() ==> (#[trigger] decrypted[k]).0.index != (
        #[trigger] decrypted[l]).0.index
}

/// Whether one answer is another in which events of the history stand decrypted, and nothing
/// else has changed.
pub open spec fn shows_history(
    before: JsonView,
    decrypted: Seq<(DecryptJob, Json)>,
    after: JsonView,
) -> bool {
    &&& history(after).len() == history(before).len()
    &&& forall|key: Seq<char>|
        key != "chunk"@ ==> #[trigger] crate::laws::syncs::under(Some(after), key)
            == crate::laws::syncs::under(Some(before), key)
    &&& forall|k: int, key: Seq<char>|
        0 <= k < decrypted.len() ==> #[trigger] crate::laws::syncs::under(
            Some(history(after)[decrypted[k].0.index as int]),
            key,
        ) == crate::laws::syncs::shown_under(decrypted[k].0.event@, decrypted[k].1@, key)
    &&& forall|i: int|
        0 <= i < history(before).len() && (forall|k: int|
            0 <= k < decrypted.len() ==> (#[trigger] decrypted[k]).0.index != i) ==> #[trigger] history(
            after,
        )[i] == history(before)[i]
}

/// A client gets the history of a room with the events that were decrypted in their places,
/// all others as they came, and the rest of the answer unchanged.
pub proof fn histories_are_shown(
    response: UpstreamResponse,
    body: Json,
    decrypted: Vec<(DecryptJob, Json)>,
    r: ProxyResponse,
)
    requires
        call_ensures(finish_messages, (&response, body, &decrypted), r),
        in_history(body@, decrypted@),
        forall|k: int|
            0 <= k < decrypted@.len() ==> (#[trigger] decrypted@[k]).1@ is Object
                || decrypted@[k].1@ is Null,
    ensures
        answers_with(r, response, r.body@),
        exists|after: JsonView|
            #[trigger] shows_history(body@, decrypted@, after) && (crate::json::reads_back(after)
                ==> crate::json::decoded(r.body@) == Some(after)),
{
    crate::laws::wire::lemma_coming_down(crate::wire::header_views(response.headers@));
    let b = body@;
    let views = crate::client::sync::decrypted_views(decrypted@);
    let after = crate::proxy::routes::decrypted_chunk(b, views);
    assert(history(b) =~= crate::proxy::routes::chunk(b));
    assert(history(after) =~= crate::proxy::routes::chunk(after));
    assert forall|k: int| 0 <= k < views.len() implies ({
        let job = (#[trigger] views[k]).0;
        0 <= job.index < crate::proxy::routes::chunk(b).len() && job.event
            == crate::proxy::routes::chunk(b)[job.index]
    }) by {
        assert(views[k].0 == decrypted@[k].0@);
    }
    assert forall|k: int, l: int| 0 <= k < l < views.len() implies (#[trigger] views[k]).0.index
        != (#[trigger] views[l]).0.index by {
        assert(views[k].0 == decrypted@[k].0@ && views[l].0 == decrypted@[l].0@);
    }
    reveal_with_fuel(crate::json::pointer, 2);
    assert(seq!["chunk"@].drop_first().len() == 0);
    assert forall|key: Seq<char>| key != "chunk"@ implies #[trigger] crate::laws::syncs::under(
        Some(after),
        key,
    ) == crate::laws::syncs::under(Some(b), key) by {
        crate::proxy::routes::history_keeps_the_rest(b, views, key);
    }
    if crate::client::events::array_at(b, seq!["chunk"@]) is Some {
        crate::proxy::routes::history_events(b, views);
        assert forall|k: int, key: Seq<char>| 0 <= k < decrypted@.len() implies #[trigger]
            crate::laws::syncs::under(
            Some(history(after)[decrypted@[k].0.index as int]),
            key,
        ) == crate::laws::syncs::shown_under(decrypted@[k].0.event@, decrypted@[k].1@, key) by {
            assert(views[k].0 == decrypted@[k].0@);
            let index = decrypted@[k].0.index as int;
            crate::proxy::routes::history_shows_events(b, views, index);
            crate::laws::syncs::lemma_shown(history(b)[index], decrypted@[k].1@, key);
        }
        assert forall|i: int|
            0 <= i < history(b).len() && (forall|k: int|
                0 <= k < decrypted@.len() ==> (#[trigger] decrypted@[k]).0.index
                    != i) implies #[trigger] history(after)[i] == history(b)[i] by {
            crate::proxy::routes::history_shows_events(b, views, i);
            assert forall|k: int| 0 <= k < views.len() implies (#[trigger] views[k]).0.index
                != i by {
                assert(views[k].0 == decrypted@[k].0@);
                assert(decrypted@[k].0.index != i);
            }
        }
    } else {
        assert(history(b).len() == 0);
        if decrypted@.len() > 0 {
            assert(decrypted@[0].0.index < history(b).len());
        }
    }
    assert(shows_history(b, decrypted@, after));
}

/// Whether a response is an error of Matrix: JSON that names a code and says what is wrong.
pub open spec fn is_error(
    r: ProxyResponse,
    status: nat,
    code: Seq<char>,
    message: Seq<char>,
) -> bool {
    &&& r.status == status
    &&& r.headers@.len() == 1
    &&& r.headers@[0].name@ == "content-type"@
    &&& r.headers@[0].value@ == vstd::utf8::encode_utf8("application/json"@)
    &&& crate::laws::syncs::under(crate::json::decoded(r.body@), "errcode"@) == Some(
        JsonView::Text(code),
    )
    &&& crate::laws::syncs::under(crate::json::decoded(r.body@), "error"@) == Some(
        JsonView::Text(message),
    )
}

/// The two keys of an error.
proof fn lemma_error(code: Seq<char>, message: Seq<char>)
    ensures
        crate::laws::syncs::under(Some(crate::error::error_json(code, message)), "errcode"@) == Some(
            JsonView::Text(code),
        ),
        crate::laws::syncs::under(Some(crate::error::error_json(code, message)), "error"@) == Some(
            JsonView::Text(message),
        ),
{
    reveal_strlit("errcode");
    reveal_strlit("error");
    assert("errcode"@.len() == 7 && "error"@.len() == 5);
}

/// An error names its code and what is wrong, each under its key, with its status.
pub proof fn errors_are_told(status: u16, code: &str, message: &str, r: ProxyResponse)
    requires
        call_ensures(error_response, (status, code, message), r),
    ensures
        is_error(r, status as nat, code@, message@),
{
    lemma_error(code@, message@);
    let views = crate::wire::header_views(r.headers@);
    assert(views.len() == r.headers@.len());
    assert(views[0] == r.headers@[0]@);
}

/// Whoever asks for what went wrong learns whose fault it was: the homeserver's, the one of
/// the records, the one of the request, or another one of the proxy.
pub proof fn failures_are_told(e: AppError, said: String, r: ProxyResponse)
    requires
        call_ensures(AppError::message, (&e,), said),
        call_ensures(AppError::into_response, (e,), r),
    ensures
        match e {
            AppError::Upstream(t) => said@ == "upstream request failed: "@ + t@ && r.status == 502,
            AppError::Database(t) => said@ == "database error: "@ + t@ && r.status == 500,
            AppError::Body => said@ == "body too large or unreadable"@ && r.status == 400,
            AppError::Internal(t) => said@ == t@ && r.status == 500,
        },
        is_error(r, r.status as nat, "M_UNKNOWN"@, said@),
{
    lemma_error("M_UNKNOWN"@, e.spec_message());
    let views = crate::wire::header_views(r.headers@);
    assert(views.len() == r.headers@.len());
    assert(views[0] == r.headers@[0]@);
}

/// A search goes to the homeserver as it came where the settings allow it, and else the client
/// learns that there is none.
pub proof fn searches_are_allowed(
    daemon: ProxyDaemon,
    req: ClientRequest,
    r: SearchPlan,
    opts: ProxyResponse,
)
    requires
        call_ensures(search, (&daemon, &req), r),
        call_ensures(search_opts, (), opts),
    ensures
        r is Forward <==> daemon@.server.search_requests,
        match r {
            SearchPlan::Forward(u) => as_it_came(u, req, daemon@.server.homeserver),
            SearchPlan::Respond(a) => is_error(
                a,
                404,
                "M_NOT_FOUND"@,
                "Local search is not enabled"@,
            ),
        },
        opts.status == 200,
        opts.headers@.len() == 0,
        opts.body@.len() == 0,
{
    crate::laws::wire::lemma_going_up(crate::wire::header_views(req.headers@), false);
    lemma_error("M_NOT_FOUND"@, "Local search is not enabled"@);
    if let SearchPlan::Respond(a) = r {
        let views = crate::wire::header_views(a.headers@);
        assert(views.len() == a.headers@.len());
        assert(views[0] == a.headers@[0]@);
    }
    assert(crate::wire::header_views(opts.headers@).len() == opts.headers@.len());
}

/// Whether a list of routes has one handler for a method of a path, and it is this one.
pub open spec fn serves(
    routes: Seq<Route>,
    path: Seq<char>,
    method: Method,
    handler: Handler,
) -> bool {
    exists|i: int|
        0 <= i < routes.len() && (#[trigger] routes[i]).path@ == path && routes[i].method == method
            && routes[i].handler == handler
}

/// A route among all of them serves its path.
proof fn lemma_serves(
    routes: Seq<Route>,
    path: Seq<char>,
    method: Method,
    handler: Handler,
)
    requires
        crate::proxy::route_views(routes) == crate::proxy::all_routes(),
        crate::proxy::all_routes().contains((path, method, handler)),
    ensures
        serves(routes, path, method, handler),
{
    let views = crate::proxy::route_views(routes);
    let i = choose|i: int| 0 <= i < views.len() && views[i] == (path, method, handler);
    assert(views[i] == routes[i]@);
    assert(routes[i].path@ == path);
}

/// A route of the client API in each of its versions.
proof fn lemma_client_route(
    routes: Seq<Route>,
    version: Seq<char>,
    n: int,
    rest: Seq<char>,
    method: Method,
    handler: Handler,
)
    requires
        crate::proxy::route_views(routes) == crate::proxy::all_routes(),
        version == "/_matrix/client/r0"@ || version == "/_matrix/client/v3"@,
        0 <= n < crate::proxy::client_endpoints().len(),
        crate::proxy::client_endpoints()[n] == (rest, method, handler),
    ensures
        serves(routes, version + rest, method, handler),
{
    crate::proxy::versions_alike(rest, method, handler);
    lemma_serves(routes, version + rest, method, handler);
}

/// In both versions of the client API the proxy itself serves logins, syncs, new rooms, the
/// history of rooms, messages, filters, searches and changes of avatars.
pub proof fn client_api_is_served(r: Vec<Route>, version: Seq<char>)
    requires
        call_ensures(build_router, (), r),
        version == "/_matrix/client/r0"@ || version == "/_matrix/client/v3"@,
    ensures
        serves(r@, version + "/login"@, Method::Get, Handler::ProxyPass),
        serves(r@, version + "/login"@, Method::Post, Handler::Login),
        serves(r@, version + "/sync"@, Method::Get, Handler::Sync),
        serves(r@, version + "/createRoom"@, Method::Post, Handler::CreateRoom),
        serves(r@, version + "/rooms/:room_id/messages"@, Method::Get, Handler::Messages),
        serves(
            r@,
            version + "/rooms/:room_id/send/:event_type/:txnid"@,
            Method::Put,
            Handler::SendMessage,
        ),
        serves(r@, version + "/user/:user_id/filter"@, Method::Post, Handler::Filter),
        serves(r@, version + "/search"@, Method::Post, Handler::Search),
        serves(r@, version + "/search"@, Method::Options, Handler::SearchOpts),
        serves(r@, version + "/profile/:user_id/avatar_url"@, Method::Get, Handler::ProxyPass),
        serves(r@, version + "/profile/:user_id/avatar_url"@, Method::Put, Handler::Profile),
{
    lemma_client_route(r@, version, 0, "/login"@, Method::Get, Handler::ProxyPass);
    lemma_client_route(r@, version, 1, "/login"@, Method::Post, Handler::Login);
    lemma_client_route(r@, version, 2, "/sync"@, Method::Get, Handler::Sync);
    lemma_client_route(r@, version, 3, "/createRoom"@, Method::Post, Handler::CreateRoom);
    lemma_client_route(
        r@,
        version,
        4,
        "/rooms/:room_id/messages"@,
        Method::Get,
        Handler::Messages,
    );
    lemma_client_route(
        r@,
        version,
        5,
        "/rooms/:room_id/send/:event_type/:txnid"@,
        Method::Put,
        Handler::SendMessage,
    );
    lemma_client_route(r@, version, 6, "/user/:user_id/filter"@, Method::Post, Handler::Filter);
    lemma_client_route(r@, version, 7, "/search"@, Method::Post, Handler::Search);
    lemma_client_route(r@, version, 8, "/search"@, Method::Options, Handler::SearchOpts);
    lemma_client_route(
        r@,
        version,
        9,
        "/profile/:user_id/avatar_url"@,
        Method::Get,
        Handler::ProxyPass,
    );
    lemma_client_route(
        r@,
        version,
        10,
        "/profile/:user_id/avatar_url"@,
        Method::Put,
        Handler::Profile,
    );
}

/// Beside the client API the proxy serves discovery, downloads in all versions of the media
/// API, and uploads in those that have them; no method of a path has two handlers, and
/// nothing else is served.
pub proof fn media_api_is_served(r: Vec<Route>, i: int, j: int)
    requires
        call_ensures(build_router, (), r),
    ensures
        serves(r@, "/.well-known/matrix/client"@, Method::Get, Handler::WellKnown),
        serves(r@, "/.well-known/matrix/client"@, Method::Post, Handler::WellKnown),
        serves(
            r@,
            "/_matrix/media/v1"@ + "/download/:server_name/:media_id"@,
            Method::Get,
            Handler::Download,
        ),
        serves(
            r@,
            "/_matrix/media/v1"@ + "/download/:server_name/:media_id/:file_name"@,
            Method::Get,
            Handler::Download,
        ),
        serves(
            r@,
            "/_matrix/media/v3"@ + "/download/:server_name/:media_id"@,
            Method::Get,
            Handler::Download,
        ),
        serves(
            r@,
            "/_matrix/media/v3"@ + "/download/:server_name/:media_id/:file_name"@,
            Method::Get,
            Handler::Download,
        ),
        serves(
            r@,
            "/_matrix/media/r0"@ + "/download/:server_name/:media_id"@,
            Method::Get,
            Handler::Download,
        ),
        serves(
            r@,
            "/_matrix/media/r0"@ + "/download/:server_name/:media_id/:file_name"@,
            Method::Get,
            Handler::Download,
        ),
        serves(r@, "/_matrix/media/r0"@ + "/upload"@, Method::Post, Handler::Upload),
        serves(r@, "/_matrix/media/v3"@ + "/upload"@, Method::Post, Handler::Upload),
        r@.len() == 32,
        0 <= i < j < r@.len() ==> r@[i].path@ != r@[j].path@ || r@[i].method != r@[j].method,
{
    let all = crate::proxy::all_routes();
    let views = crate::proxy::route_views(r@);
    assert(views.len() == r@.len());
    assert(all.len() == 32);
    let short = "/download/:server_name/:media_id"@;
    let long = "/download/:server_name/:media_id/:file_name"@;
    assert(all[22] == crate::proxy::discovery_endpoints()[0]);
    assert(all[23] == crate::proxy::discovery_endpoints()[1]);
    assert(all[24] == ("/_matrix/media/v1"@ + short, Method::Get, Handler::Download));
    assert(all[25] == ("/_matrix/media/v1"@ + long, Method::Get, Handler::Download));
    assert(all[26] == ("/_matrix/media/v3"@ + short, Method::Get, Handler::Download));
    assert(all[27] == ("/_matrix/media/v3"@ + long, Method::Get, Handler::Download));
    assert(all[28] == ("/_matrix/media/r0"@ + short, Method::Get, Handler::Download));
    assert(all[29] == ("/_matrix/media/r0"@ + long, Method::Get, Handler::Download));
    assert(all[30] == ("/_matrix/media/r0"@ + "/upload"@, Method::Post, Handler::Upload));
    assert(all[31] == ("/_matrix/media/v3"@ + "/upload"@, Method::Post, Handler::Upload));
    let known = "/.well-known/matrix/client"@;
    lemma_serves(r@, known, Method::Get, Handler::WellKnown);
    lemma_serves(r@, known, Method::Post, Handler::WellKnown);
    lemma_serves(r@, "/_matrix/media/v1"@ + short, Method::Get, Handler::Download);
    lemma_serves(r@, "/_matrix/media/v1"@ + long, Method::Get, Handler::Download);
    lemma_serves(r@, "/_matrix/media/v3"@ + short, Method::Get, Handler::Download);
    lemma_serves(r@, "/_matrix/media/v3"@ + long, Method::Get, Handler::Download);
    lemma_serves(r@, "/_matrix/media/r0"@ + short, Method::Get, Handler::Download);
    lemma_serves(r@, "/_matrix/media/r0"@ + long, Method::Get, Handler::Download);
    lemma_serves(r@, "/_matrix/media/r0"@ + "/upload"@, Method::Post, Handler::Upload);
    lemma_serves(r@, "/_matrix/media/v3"@ + "/upload"@, Method::Post, Handler::Upload);
    if 0 <= i < j < r@.len() {
        crate::proxy::routes_distinct(i, j);
        assert(views[i] == r@[i]@ && views[j] == r@[j]@);
    }
}

} // verus!
