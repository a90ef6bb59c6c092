//! Uploads, which leave the proxy sealed, and downloads, which it opens.

use matrix_sdk_crypto::MediaEncryptionInfo;
use vstd::prelude::*;
use crate::client::media::{info_of, record_of, split_mxc};
use crate::client::PanClient;
use crate::json::Json;
use crate::proxy::daemon::ProxyDaemon;
use crate::proxy::routes::{extract_token, find_parameter, pass_back};
use crate::store::PanStore;
use crate::text::{find_text, split};
use crate::wire::{
    build_response, copy_bytes, find_header, header_text, ClientRequest, ProxyResponse,
    UpstreamRequest, UpstreamResponse,
};

verus! {

/// What to do about an upload.
pub struct UploadPlan {
    pub request: UpstreamRequest,
    /// What opens the upload, where it was sealed.
    pub info: Option<MediaEncryptionInfo>,
}

/// Whether an upload is sealed: it is that of a user with a session here, and there is
/// something to seal.
pub open spec fn to_be_sealed(
    d: crate::proxy::daemon::DaemonView,
    req: ClientRequest,
) -> bool {
    &&& crate::proxy::routes::token_of(req) matches Some(token)
    &&& crate::proxy::daemon::resolution(d, token) is Client
    &&& req.body@.len() > 0
}

/// The request to the homeserver that an upload of `body` becomes.
pub open spec fn upload_request(
    d: crate::proxy::daemon::DaemonView,
    req: ClientRequest,
    body: Seq<u8>,
) -> crate::wire::UpstreamView {
    req.to_upstream(d.server.homeserver, "POST"@, true, Some(body))
}

/// Whether a plan is right for an upload, whatever key it was sealed with.
pub open spec fn upload_planned(
    d: crate::proxy::daemon::DaemonView,
    req: ClientRequest,
    plan: UploadPlan,
) -> bool {
    match plan.info {
        Some(info) => {
            &&& to_be_sealed(d, req)
            &&& plan.request@.body matches Some(sealed)
            &&& plan.request@ == upload_request(d, req, sealed)
            &&& sealed.len() == req.body@.len()
            &&& crate::client::media::attachment_opened(
                sealed,
                crate::client::media::info_view(info),
            ) == Some(req.body@)
            &&& crate::client::media::seals(crate::client::media::info_view(info), sealed)
        },
        None => {
            &&& !to_be_sealed(d, req)
            &&& plan.request@ == upload_request(d, req, req.body@)
        },
    }
}

/// Whether an upload is to be sealed.
fn wants_seal(daemon: &ProxyDaemon, req: &ClientRequest) -> (r: bool)
    ensures
        r == to_be_sealed(daemon@, *req),
{
    match extract_token(req) {
        Some(token) => daemon.is_known_token(token.as_str()) && req.body.len() > 0,
        None => false,
    }
}

/// What to do about an upload, given what sealing it came to: that of a user with a session
/// here leaves sealed, and any other one leaves as it came, as does one that could not be
/// sealed.
pub fn upload_sealed(
    daemon: &ProxyDaemon,
    req: &ClientRequest,
    sealed: Option<(Vec<u8>, MediaEncryptionInfo)>,
) -> (r: UploadPlan)
    ensures
        match sealed {
            Some(s) => if to_be_sealed(daemon@, *req) {
                r.request@ == upload_request(daemon@, *req, s.0@) && r.info == Some(s.1)
            } else {
                r.request@ == upload_request(daemon@, *req, req.body@) && r.info is None
            },
            None => r.request@ == upload_request(daemon@, *req, req.body@) && r.info is None,
        },
{
    let homeserver = daemon.config().homeserver.as_str();
    match sealed {
        Some((bytes, info)) => if wants_seal(daemon, req) {
            return UploadPlan {
                request: req.upstream(homeserver, "POST", true, Some(bytes)),
                info: Some(info),
            };
        },
        None => {},
    }
    UploadPlan {
        request: req.upstream(homeserver, "POST", true, Some(copy_bytes(&req.body))),
        info: None,
    }
}

/// What to do about an upload. That of a user with a session here is sealed, with a key
/// drawn at random; any other one leaves as it came.
pub fn upload(daemon: &ProxyDaemon, req: &ClientRequest) -> (r: UploadPlan)
    ensures
        upload_planned(daemon@, *req, r),
{
    let sealed = if wants_seal(daemon, req) {
        PanClient::encrypt_attachment(&req.body)
    } else {
        None
    };
    upload_sealed(daemon, req, sealed)
}

/// The type of an upload.
pub open spec fn upload_type(headers: Seq<crate::wire::HeaderView>) -> Seq<char> {
    match crate::wire::header_value(headers, "content-type"@) {
        Some(v) => match crate::wire::value_text(v) {
            Some(t) => t,
            None => "application/octet-stream"@,
        },
        None => "application/octet-stream"@,
    }
}

/// The type of an upload.
fn read_type(req: &ClientRequest) -> (r: String)
    ensures
        r@ == upload_type(crate::wire::header_views(req.headers@)),
{
    match find_header(&req.headers, "content-type") {
        Some(v) => match header_text(v) {
            Some(t) => t,
            None => "application/octet-stream".to_owned(),
        },
        None => "application/octet-stream".to_owned(),
    }
}

/// The records after an upload that was sealed has got its address.
pub open spec fn upload_recorded(
    s: crate::store::StoreView,
    server: Seq<char>,
    req: ClientRequest,
    info: crate::json::JsonView,
    uri: Seq<char>,
) -> crate::store::StoreView {
    match crate::client::media::mxc_parts(uri) {
        Some((mxc_server, mxc_path)) => {
            let kept = crate::store::with_media(
                s,
                server,
                crate::client::media::media_from(info, mxc_server, mxc_path),
            );
            match crate::proxy::routes::parameter(req.query, "filename="@) {
                Some(filename) => crate::store::with_upload(
                    kept,
                    server,
                    uri,
                    filename,
                    upload_type(crate::wire::header_views(req.headers@)),
                ),
                None => kept,
            }
        },
        None => s,
    }
}

/// What opens a medium, according to the records.
pub open spec fn means_at(
    s: crate::store::StoreView,
    server: Seq<char>,
    mxc_server: Seq<char>,
    mxc_path: Seq<char>,
) -> Option<crate::json::JsonView> {
    match crate::store::media_at(s, server, mxc_server, mxc_path) {
        Ok(Some(media)) => crate::client::media::info_parsed(
            crate::client::media::info_from(media),
        ),
        _ => None,
    }
}

/// Whether the records are right after the answer to an upload: where it was sealed and
/// the homeserver took it, what opens it is kept under its address, and opens it again
/// unless there was a record already, or its hashes are not read back.
pub open spec fn upload_kept(
    d: crate::proxy::daemon::DaemonView,
    before: crate::store::StoreView,
    after: crate::store::StoreView,
    req: ClientRequest,
    info: Option<MediaEncryptionInfo>,
    response: crate::wire::ResponseView,
    content_uri: Option<String>,
) -> bool {
    match (info, content_uri) {
        (Some(i), Some(uri)) => if crate::wire::is_success(response.status) {
            let tree = crate::client::media::info_view(i);
            &&& after == upload_recorded(before, d.server.name, req, tree, uri@)
            &&& crate::client::media::mxc_parts(uri@) matches Some(p) ==> {
                let was = crate::store::media_at(before, d.server.name, p.0, p.1);
                &&& crate::client::media::media_shape(tree)
                &&& (was matches Ok(m) && m is None) && crate::json::reads_back(
                    crate::client::media::field_or_null(tree, "hashes"@),
                ) ==> {
                    &&& crate::store::media_at(after, d.server.name, p.0, p.1) == Ok::<
                        Option<crate::store::MediaView>,
                        crate::store::StoreError,
                    >(Some(crate::client::media::media_from(tree, p.0, p.1)))
                    &&& crate::json::text_field(tree, "v"@) == Some("v2"@) ==> means_at(
                        after,
                        d.server.name,
                        p.0,
                        p.1,
                    ) == Some(tree)
                }
            }
        } else {
            after == before
        },
        _ => after == before,
    }
}

/// Takes the answer to an upload. Where it was sealed and the homeserver took it, what
/// opens it is recorded under the address that it got, with its name and type; the client
/// gets the answer as it came. `content_uri` is the address in the body, where there is
/// one. What was recorded opens the upload again, unless there was a record already.
pub fn upload_answered(
    daemon: &ProxyDaemon,
    store: &mut PanStore,
    req: &ClientRequest,
    info: &Option<MediaEncryptionInfo>,
    response: &UpstreamResponse,
    content_uri: &Option<String>,
) -> (r: ProxyResponse)
    requires
        old(store).wf(),
    ensures
        final(store).wf(),
        r@ == crate::wire::answered(response@, response.body@),
        upload_kept(
            daemon@,
            old(store)@,
            final(store)@,
            *req,
            *info,
            response@,
            *content_uri,
        ),
{
    let answer = pass_back(response);
    match (info, content_uri) {
        (Some(i), Some(uri)) => if response.succeeded() {
            match split_mxc(uri.as_str()) {
                Some((mxc_server, mxc_path)) => {
                    let media = record_of(i, mxc_server, mxc_path);
                    store.save_media(daemon.name(), &media);
                    proof {
                        let tree = crate::client::media::info_view(*i);
                        if crate::json::text_field(tree, "v"@) == Some("v2"@) {
                            crate::client::media::media_recorded(tree, mxc_server@, mxc_path@);
                        }
                    }
                    match find_parameter(&req.query, "filename=") {
                        Some(filename) => {
                            let kind = read_type(req);
                            store.save_upload(
                                daemon.name(),
                                uri.as_str(),
                                filename,
                                kind.as_str(),
                            );
                        },
                        None => {},
                    }
                },
                None => {},
            }
        },
        _ => {},
    }
    answer
}

/// Takes the answer to an upload, with the address that its body states.
pub fn take_upload(
    daemon: &ProxyDaemon,
    store: &mut PanStore,
    req: &ClientRequest,
    info: &Option<MediaEncryptionInfo>,
    response: &UpstreamResponse,
) -> (r: (ProxyResponse, Option<String>))
    requires
        old(store).wf(),
    ensures
        final(store).wf(),
        r.0@ == crate::wire::answered(response@, response.body@),
        crate::client::sync::optional_text(r.1) == crate::json::said(
            response.body@,
            "content_uri"@,
            0,
            1,
        ),
        upload_kept(daemon@, old(store)@, final(store)@, *req, *info, response@, r.1),
{
    let content_uri = Json::text_in(response.body.as_slice(), "content_uri", 0, 1);
    let answer = upload_answered(daemon, store, req, info, response, &content_uri);
    (answer, content_uri)
}

/// What is recorded of an upload that was sealed is whole: its key, an initialisation vector
/// of 22 letters, and the hash of what was sent to the homeserver.
pub proof fn whole_record_kept(
    d: crate::proxy::daemon::DaemonView,
    before: crate::store::StoreView,
    after: crate::store::StoreView,
    req: ClientRequest,
    plan: UploadPlan,
    response: crate::wire::ResponseView,
    uri: String,
    mxc_server: Seq<char>,
    mxc_path: Seq<char>,
)
    requires
        upload_planned(d, req, plan),
        to_be_sealed(d, req),
        crate::wire::is_success(response.status),
        crate::client::media::mxc_parts(uri@) == Some((mxc_server, mxc_path)),
        crate::store::media_at(before, d.server.name, mxc_server, mxc_path) matches Ok(m) && m
            is None,
        upload_kept(d, before, after, req, plan.info, response, Some(uri)),
    ensures
        ({
            let kept = crate::store::media_at(after, d.server.name, mxc_server, mxc_path);
            &&& kept matches Ok(Some(media))
            &&& media.mxc_server == mxc_server
            &&& media.mxc_path == mxc_path
            &&& media.key is Object
            &&& media.iv.len() == 22
            &&& media.hashes == crate::client::media::hashes_of(plan.request@.body.unwrap())
        }),
{
    crate::client::media::hashes_read_back(plan.request@.body.unwrap());
    let tree = crate::client::media::info_view(plan.info.unwrap());
    assert(tree->Object_0.contains_key("key"@));
}

/// The server and the identifier of the medium that a download path is about: the two
/// segments that follow the first `/download/`, whatever stands behind them.
pub open spec fn mxc_in_path(path: Seq<char>) -> Option<(Seq<char>, Seq<char>)> {
    match crate::text::find(path, "/download/"@) {
        Some(i) => {
            let segments = crate::text::split_on(path.skip(i + "/download/"@.len()), '/');
            if segments.len() >= 2 {
                Some((segments[0], segments[1]))
            } else {
                None
            }
        },
        None => None,
    }
}

/// The server and the identifier of the medium that a download path is about.
pub fn mxc_from_path<'a>(path: &'a str) -> (r: Option<(&'a str, &'a str)>)
    ensures
        r is Some <==> mxc_in_path(path@) is Some,
        r matches Some(p) ==> mxc_in_path(path@) == Some((p.0@, p.1@)),
{
    let len = path.unicode_len();
    let i = match find_text(path, "/download/") {
        Some(i) => i,
        None => {
            return None;
        },
    };
    let mark = "/download/".unicode_len();
    let after: &'a str = path.substring_char(i + mark, len);
    assert(after@ =~= path@.skip(i + mark));
    let segments = split(after, '/');
    let ghost all = crate::text::views(segments@);
    assert(all.len() == segments@.len());
    if segments.len() >= 2 {
        assert(all[0] == segments@[0]@ && all[1] == segments@[1]@);
        Some((segments[0], segments[1]))
    } else {
        None
    }
}

/// Two texts with one slash between them hold no other.
proof fn lemma_one_slash(server: Seq<char>, id: Seq<char>, i: int)
    requires
        !server.contains('/'),
        !id.contains('/'),
        0 <= i < (server + seq!['/'] + id).len(),
        (server + seq!['/'] + id)[i] == '/',
    ensures
        i == server.len(),
{
    if i < server.len() {
        assert(server[i] == '/');
    } else if i > server.len() {
        assert(id[i - server.len() - 1] == '/');
    }
}

/// Whether a text can follow the identifier of a medium in a path: it is empty, or another
/// segment begins with it.
pub open spec fn ends_segment(tail: Seq<char>) -> bool {
    tail.len() == 0 || tail[0] == '/'
}

/// A download path leads to the medium of an address: for the address of an identifier on
/// a server, and a path to the two of them, with or without a file name behind them, both
/// name the server and the identifier.
pub proof fn path_names_address(
    prefix: Seq<char>,
    server: Seq<char>,
    id: Seq<char>,
    tail: Seq<char>,
)
    requires
        crate::text::find(prefix + "/download/"@, "/download/"@) == Some(prefix.len() as int),
        !server.contains('/'),
        !id.contains('/'),
        ends_segment(tail),
    ensures
        mxc_in_path(prefix + "/download/"@ + (server + seq!['/'] + id) + tail) == Some(
            (server, id),
        ),
        crate::client::media::mxc_parts("mxc://"@ + (server + seq!['/'] + id)) == Some(
            (server, id),
        ),
{
    reveal_strlit("/download/");
    reveal_strlit("mxc://");
    let mark = "/download/"@;
    let scheme = "mxc://"@;
    let rest = server + seq!['/'] + id;
    assert(mark.len() == 10);
    assert(scheme.len() == 6 && scheme[4] == '/' && scheme[5] == '/');
    let path = prefix + mark + rest + tail;
    crate::text::lemma_find_longer(prefix + mark, rest + tail, mark, 0);
    assert(path =~= prefix + mark + (rest + tail));
    assert(path.skip(prefix.len() as int + 10) =~= rest + tail);
    assert(rest + tail =~= server + seq!['/'] + (id + tail));
    crate::text::lemma_split_front(server, id + tail, '/');
    let segments = crate::text::split_on(rest + tail, '/');
    if tail.len() == 0 {
        assert(id + tail =~= id);
        assert(crate::text::split_on(id, '/') == seq![id]);
        assert(segments =~= seq![server, id]);
    } else {
        let name = tail.drop_first();
        assert(id + tail =~= id + seq!['/'] + name);
        crate::text::lemma_split_front(id, name, '/');
        assert(segments[0] == server && segments[1] == id);
    }
    crate::text::lemma_split_front(server, id, '/');
    let uri = scheme + rest;
    assert(scheme.is_prefix_of(uri));
    assert(uri.skip(6) =~= rest);
    if scheme.is_prefix_of(rest) {
        assert(rest[4] == scheme[4] && rest[5] == scheme[5]);
        lemma_one_slash(server, id, 4);
        lemma_one_slash(server, id, 5);
    }
    assert(crate::text::strip_copies(rest, scheme) == rest);
    assert(crate::text::strip_copies(uri, scheme) == rest);
    assert(rest.take(server.len() as int) =~= server);
    assert(rest.skip(server.len() as int + 1) =~= id);
}

/// What to do about a download.
pub enum DownloadPlan {
    /// Pass on, and give the answer as it comes.
    Forward(UpstreamRequest),
    /// Fetch, and open what comes.
    Fetch { request: UpstreamRequest, info: MediaEncryptionInfo },
}

/// What opens the medium that a request is about, according to the records.
pub open spec fn means_for(
    d: crate::proxy::daemon::DaemonView,
    s: crate::store::StoreView,
    req: ClientRequest,
) -> Option<crate::json::JsonView> {
    match mxc_in_path(req.path@) {
        Some((mxc_server, mxc_path)) => means_at(s, d.server.name, mxc_server, mxc_path),
        None => None,
    }
}

/// Whether a plan is right for a download.
pub open spec fn download_planned(
    d: crate::proxy::daemon::DaemonView,
    s: crate::store::StoreView,
    req: ClientRequest,
    plan: DownloadPlan,
) -> bool {
    match plan {
        DownloadPlan::Forward(u) => {
            &&& means_for(d, s, req) is None
            &&& u@ == crate::proxy::daemon::passed_on(d, req)
        },
        DownloadPlan::Fetch { request, info } => {
            &&& means_for(d, s, req) == Some(crate::client::media::info_view(info))
            &&& request@ == req.to_upstream(d.server.homeserver, "GET"@, false, None)
        },
    }
}

/// What to do about a download: it is opened where the records say how.
pub fn download(daemon: &ProxyDaemon, store: &PanStore, req: &ClientRequest) -> (r: DownloadPlan)
    requires
        store.wf(),
    ensures
        download_planned(daemon@, store@, *req, r),
{
    let (mxc_server, mxc_path) = match mxc_from_path(req.path.as_str()) {
        Some(p) => p,
        None => {
            return DownloadPlan::Forward(daemon.forward_request(req));
        },
    };
    match store.load_media(daemon.name(), mxc_server, mxc_path) {
        Ok(Some(media)) => match info_of(&media) {
            Some(info) => DownloadPlan::Fetch {
                request: req.upstream(
                    daemon.config().homeserver.as_str(),
                    "GET",
                    false,
                    None,
                ),
                info,
            },
            None => DownloadPlan::Forward(daemon.forward_request(req)),
        },
        _ => DownloadPlan::Forward(daemon.forward_request(req)),
    }
}

/// What to do about the answer to a download.
#[derive(Debug)]
pub enum DownloadStep {
    /// Answer the client.
    Respond(ProxyResponse),
    /// Pass the request on after all.
    Forward,
}

/// Whether a step is right after the answer to a download.
pub open spec fn download_opened(
    response: crate::wire::ResponseView,
    info: crate::json::JsonView,
    step: DownloadStep,
) -> bool {
    let opened = crate::client::media::attachment_opened(response.body, info);
    match step {
        DownloadStep::Respond(a) => if crate::wire::is_success(response.status) {
            &&& opened is Some
            &&& crate::client::media::hash_in(info) == Some(
                crate::client::media::sha256_text(response.body),
            )
            &&& a@ == crate::wire::answered(response, opened.unwrap())
        } else {
            a@ == crate::wire::answered(response, response.body)
        },
        DownloadStep::Forward => crate::wire::is_success(response.status) && opened is None,
    }
}

/// Takes the answer to a download. What the homeserver sent is opened; where it cannot be,
/// the request is passed on after all, and a failure is passed back.
pub fn download_answered(response: &UpstreamResponse, info: MediaEncryptionInfo) -> (r:
    DownloadStep)
    ensures
        download_opened(response@, crate::client::media::info_view(info), r),
{
    if !response.succeeded() {
        return DownloadStep::Respond(pass_back(response));
    }
    match PanClient::decrypt_attachment(&response.body, info) {
        Some(data) => DownloadStep::Respond(
            build_response(response.status, &response.headers, data),
        ),
        None => DownloadStep::Forward,
    }
}

/// What was uploaded sealed is downloaded as it was: the homeserver gives the upload an
/// address and later sends the sealed bytes back from it, and the client of the download
/// gets the bytes that were uploaded.
pub proof fn download_gives_back_upload(
    d: crate::proxy::daemon::DaemonView,
    before: crate::store::StoreView,
    after: crate::store::StoreView,
    up: ClientRequest,
    plan: UploadPlan,
    taken: crate::wire::ResponseView,
    uri: String,
    prefix: Seq<char>,
    server: Seq<char>,
    id: Seq<char>,
    tail: Seq<char>,
    down: ClientRequest,
    fetch: DownloadPlan,
    sent: crate::wire::ResponseView,
    step: DownloadStep,
)
    requires
        upload_planned(d, up, plan),
        to_be_sealed(d, up),
        crate::wire::is_success(taken.status),
        uri@ == "mxc://"@ + (server + seq!['/'] + id),
        !server.contains('/'),
        !id.contains('/'),
        crate::store::media_at(before, d.server.name, server, id) matches Ok(m) && m is None,
        upload_kept(d, before, after, up, plan.info, taken, Some(uri)),
        crate::text::find(prefix + "/download/"@, "/download/"@) == Some(prefix.len() as int),
        ends_segment(tail),
        down.path@ == prefix + "/download/"@ + (server + seq!['/'] + id) + tail,
        download_planned(d, after, down, fetch),
        crate::wire::is_success(sent.status),
        plan.request@.body == Some(sent.body),
        fetch matches DownloadPlan::Fetch { info, .. } ==> download_opened(
            sent,
            crate::client::media::info_view(info),
            step,
        ),
    ensures
        fetch is Fetch,
        step matches DownloadStep::Respond(a) && a@ == crate::wire::answered(sent, up.body@),
{
    path_names_address(prefix, server, id, tail);
    crate::client::media::hashes_read_back(sent.body);
}

} // verus!
