//! Laws of encrypted media.

use matrix_sdk_crypto::MediaEncryptionInfo;
use vstd::prelude::*;
use crate::client::media::{info_of, record_of, split_mxc};
use crate::client::PanClient;
use crate::json::{Json, JsonView};
use crate::proxy::daemon::ProxyDaemon;
use crate::proxy::media::{
    download, download_answered, mxc_from_path, take_upload, upload, upload_answered,
    upload_sealed, DownloadPlan, DownloadStep, UploadPlan,
};
use crate::proxy::routes::extract_token;
use crate::store::{MediaInfo, PanStore, StoreError};
use crate::wire::{ClientRequest, ProxyResponse, UpstreamRequest, UpstreamResponse};

verus! {

/// The address of a medium on a server.
pub open spec fn address(server: Seq<char>, path: Seq<char>) -> Seq<char> {
    "mxc://"@ + (server + seq!['/'] + path)
}

/// Whether a text can be the server in an address: it has no slash and is not the mark of an
/// address.
pub open spec fn is_server(text: Seq<char>) -> bool {
    !text.contains('/') && text != "mxc:"@
}

/// The parts of an address.
proof fn lemma_address(server: Seq<char>, path: Seq<char>)
    requires
        is_server(server),
    ensures
        crate::client::media::mxc_parts(address(server, path)) == Some((server, path)),
        crate::client::media::mxc_parts(server + seq!['/'] + path) == Some((server, path)),
        "mxc://"@.is_prefix_of(address(server, path)),
{
    reveal_strlit("mxc://");
    let mark = "mxc://"@;
    let rest = server + seq!['/'] + path;
    let all = address(server, path);
    assert(all.subrange(0, 6) =~= mark);
    assert(all.skip(6) =~= rest);
    assert(rest[server.len() as int] == '/');
    assert(!mark.is_prefix_of(rest)) by {
        if mark.is_prefix_of(rest) {
            assert(rest.subrange(0, 6) =~= mark);
            assert(rest[0] == mark[0] && rest[1] == mark[1] && rest[2] == mark[2] && rest[3]
                == mark[3] && rest[4] == mark[4] && rest[5] == mark[5]);
            reveal_strlit("mxc:");
            if server.len() > 4 {
                assert(server[4] == '/');
            } else if server.len() == 4 {
                assert(server =~= "mxc:"@);
            } else {
                assert(rest[server.len() as int] == mark[server.len() as int]);
            }
        }
    }
    assert(crate::text::strip_copies(rest, mark) == rest);
    assert(crate::text::strip_copies(all, mark) == rest);
    let first = rest.index_of_first('/');
    rest.index_of_first_ensures('/');
    assert(rest.contains('/'));
    assert forall|i: int| 0 <= i < server.len() implies rest[i] != '/' by {
        assert(rest[i] == server[i]);
        assert(server.contains(server[i]));
    }
    assert(first == Some(server.len() as int));
    assert(rest.take(server.len() as int) =~= server);
    assert(rest.skip(server.len() as int + 1) =~= path);
}

/// An address of a medium is split at the first slash behind its mark, into the server and the
/// path.
pub proof fn addresses_are_split(
    uri: &str,
    r: Option<(&str, &str)>,
    server: Seq<char>,
    path: Seq<char>,
)
    requires
        call_ensures(split_mxc, (uri,), r),
        is_server(server),
    ensures
        uri@ == address(server, path) || uri@ == server + seq!['/'] + path ==> (r matches Some(p)
            && p.0@ == server && p.1@ == path),
        !uri@.contains('/') ==> r is None,
{
    lemma_address(server, path);
    if !uri@.contains('/') {
        lemma_no_address(uri@);
    }
}

/// In an encrypted room the address of a medium whose keys are recorded goes, under `file`,
/// with its keys, and no longer stands under `url`; the rest of the content stays. Where no
/// keys are recorded, or the records are damaged, all of it stays.
pub proof fn recorded_keys_are_sent(
    client: PanClient,
    store: PanStore,
    room: &str,
    content: &mut Json,
    r: Result<(), StoreError>,
    name: &str,
    host: &str,
    path: &str,
    loaded: Result<Option<MediaInfo>, StoreError>,
    key: Seq<char>,
)
    requires
        call_ensures(PanClient::inject_media_keys, (&client, &store, room, content), r),
        call_ensures(PanStore::load_media, (&store, name, host, path), loaded),
        name@ == client@.server.name,
        is_server(host@),
        client@.encrypted_rooms.contains(room@),
        crate::laws::syncs::under(Some(old(content)@), "url"@) == Some(
            JsonView::Text(address(host@, path@)),
        ),
    ensures
        loaded matches Ok(Some(media)) ==> {
            let sent = Some(final(content)@);
            let file = crate::laws::syncs::under(sent, "file"@);
            &&& r is Ok
            &&& crate::laws::syncs::under(sent, "url"@) is None
            &&& crate::laws::syncs::under(file, "url"@) == Some(
                JsonView::Text(address(host@, path@)),
            )
            &&& crate::laws::syncs::under(file, "v"@) == Some(JsonView::Text("v2"@))
            &&& crate::laws::syncs::under(file, "key"@) == Some(media.key@)
            &&& crate::laws::syncs::under(file, "iv"@) == Some(JsonView::Text(media.iv@))
            &&& crate::laws::syncs::under(file, "hashes"@) == Some(media.hashes@)
            &&& key != "url"@ && key != "file"@ ==> crate::laws::syncs::under(sent, key)
                == crate::laws::syncs::under(Some(old(content)@), key)
        },
        loaded matches Ok(None) ==> r is Ok && final(content)@ == old(content)@,
        loaded matches Err(e) ==> r == Err::<(), StoreError>(e) && final(content)@ == old(
            content,
        )@,
{
    lemma_address(host@, path@);
    reveal_strlit("url");
    reveal_strlit("file");
    reveal_strlit("v");
    reveal_strlit("key");
    reveal_strlit("iv");
    reveal_strlit("hashes");
    assert("url"@.len() == 3 && "key"@.len() == 3 && "file"@.len() == 4 && "v"@.len() == 1
        && "iv"@.len() == 2 && "hashes"@.len() == 6);
    assert("url"@[0] == 'u' && "key"@[0] == 'k');
}

/// In a room that is not encrypted, and where the content has no address of a medium, all of it
/// stays.
pub proof fn other_content_stays(
    client: PanClient,
    store: PanStore,
    room: &str,
    content: &mut Json,
    r: Result<(), StoreError>,
)
    requires
        call_ensures(PanClient::inject_media_keys, (&client, &store, room, content), r),
        !client@.encrypted_rooms.contains(room@) || !(crate::laws::syncs::under(
            Some(old(content)@),
            "url"@,
        ) matches Some(JsonView::Text(url)) && "mxc://"@.is_prefix_of(url)),
    ensures
        r is Ok,
        final(content)@ == old(content)@,
{
}

/// What is recorded of the means to open an attachment are its key, its vector and its hashes,
/// under its address; and it opens the attachment as the means themselves do.
pub proof fn recorded_means_open_again(
    info: MediaEncryptionInfo,
    server: &str,
    path: &str,
    media: MediaInfo,
    again: Option<MediaEncryptionInfo>,
)
    requires
        call_ensures(record_of, (&info, server, path), media),
        call_ensures(info_of, (&media,), again),
    ensures
        media.mxc_server@ == server@,
        media.mxc_path@ == path@,
        crate::laws::syncs::under(Some(crate::client::media::info_view(info)), "key"@) == Some(
            media.key@,
        ),
        crate::laws::syncs::under(Some(crate::client::media::info_view(info)), "iv"@) == Some(
            JsonView::Text(media.iv@),
        ),
        crate::laws::syncs::under(Some(crate::client::media::info_view(info)), "hashes"@) == Some(
            media.hashes@,
        ),
        crate::laws::syncs::under(Some(crate::client::media::info_view(info)), "v"@) == Some(
            JsonView::Text("v2"@),
        ) ==> (again matches Some(i) && crate::client::media::info_view(i)
            == crate::client::media::info_view(info)),
{
    let tree = crate::client::media::info_view(info);
    if crate::laws::syncs::under(Some(tree), "v"@) == Some(JsonView::Text("v2"@)) {
        crate::client::media::media_recorded(tree, server@, path@);
    }
}

/// What was sealed opens to what it was, with the means that came with it; bytes with another
/// hash do not open with them.
pub proof fn sealed_bytes_open_again(
    data: Vec<u8>,
    r: Option<(Vec<u8>, MediaEncryptionInfo)>,
    sealed: Vec<u8>,
    info: MediaEncryptionInfo,
    opened: Option<Vec<u8>>,
)
    requires
        call_ensures(PanClient::encrypt_attachment, (&data,), r),
        call_ensures(PanClient::decrypt_attachment, (&sealed, info), opened),
        crate::client::media::info_view(info) == crate::client::media::info_view(r.unwrap().1),
    ensures
        r is Some,
        r.unwrap().0@.len() == data@.len(),
        sealed@ == r.unwrap().0@ ==> (opened matches Some(d) && d@ == data@),
        crate::client::media::sha256_text(sealed@) != crate::client::media::sha256_text(
            r.unwrap().0@,
        ) ==> opened is None,
{
    if crate::client::media::sha256_text(sealed@) != crate::client::media::sha256_text(
        r.unwrap().0@,
    ) {
        crate::client::media::changed_bytes_refused(
            crate::client::media::info_view(info),
            r.unwrap().0@,
            sealed@,
            match opened {
                Some(p) => Some(p@),
                None => None,
            },
        );
    }
}

/// Whether a token is that of a session.
pub open spec fn has_session(daemon: ProxyDaemon, token: Option<String>) -> bool {
    &&& token matches Some(t)
    &&& daemon@.tokens.contains_key(t@)
    &&& daemon@.clients.contains_key(daemon@.tokens[t@])
}

/// Whether a request is that of a client, posted to the homeserver with a body of its own.
pub open spec fn posted(
    u: UpstreamRequest,
    req: ClientRequest,
    homeserver: Seq<char>,
    body: Seq<u8>,
) -> bool {
    &&& u.method@ == "POST"@
    &&& req.target matches Some(t) ==> u.url@ == crate::text::strip_end(homeserver, '/') + t@
    &&& crate::wire::header_views(u.headers@) == crate::laws::wire::going_up(
        crate::wire::header_views(req.headers@),
        true,
    )
    &&& u.body matches Some(b)
    &&& b@ == body
}

/// The upload of a user with a session leaves sealed where it is not empty: the homeserver
/// gets bytes that open to it, and they have its length. Any other upload leaves as it came.
pub proof fn uploads_are_sealed(
    daemon: ProxyDaemon,
    req: ClientRequest,
    r: UploadPlan,
    token: Option<String>,
)
    requires
        call_ensures(upload, (&daemon, &req), r),
        call_ensures(extract_token, (&req,), token),
    ensures
        r.info is Some <==> has_session(daemon, token) && req.body@.len() > 0,
        match r.info {
            Some(info) => {
                &&& r.request.body matches Some(sealed)
                &&& posted(r.request, req, daemon@.server.homeserver, sealed@)
                &&& sealed@.len() == req.body@.len()
                &&& crate::client::media::attachment_opened(
                    sealed@,
                    crate::client::media::info_view(info),
                ) == Some(req.body@)
            },
            None => posted(r.request, req, daemon@.server.homeserver, req.body@),
        },
{
    crate::laws::wire::lemma_going_up(crate::wire::header_views(req.headers@), true);
}

/// The upload of a user with a session leaves as what sealing came to, with its means; any
/// other one, and one that could not be sealed, leaves as it came.
pub proof fn sealed_uploads_are_sent(
    daemon: ProxyDaemon,
    req: ClientRequest,
    sealed: Option<(Vec<u8>, MediaEncryptionInfo)>,
    r: UploadPlan,
    token: Option<String>,
)
    requires
        call_ensures(upload_sealed, (&daemon, &req, sealed), r),
        call_ensures(extract_token, (&req,), token),
    ensures
        sealed matches Some(s) ==> (has_session(daemon, token) && req.body@.len() > 0 ==> {
            &&& posted(r.request, req, daemon@.server.homeserver, s.0@)
            &&& r.info == Some(s.1)
        }),
        sealed is None || !has_session(daemon, token) || req.body@.len() == 0 ==> {
            &&& posted(r.request, req, daemon@.server.homeserver, req.body@)
            &&& r.info is None
        },
{
    crate::laws::wire::lemma_going_up(crate::wire::header_views(req.headers@), true);
}

/// What the homeserver answers to a sealed upload that it took: the address of the upload.
pub open spec fn taken_at(
    info: Option<MediaEncryptionInfo>,
    response: UpstreamResponse,
    uri: Seq<char>,
) -> bool {
    &&& info is Some
    &&& 200 <= response.status < 300
    &&& crate::json::decoded(response.body@) is Some
    &&& crate::json::decoded(response.body@).unwrap() is Object
    &&& crate::laws::syncs::under(crate::json::decoded(response.body@), "content_uri"@) == Some(
        JsonView::Text(uri),
    )
}

/// Whether the type of an upload is the one of its header, or the one of any bytes where it
/// has none.
pub open spec fn has_type(req: ClientRequest, mime: Seq<char>) -> bool {
    ||| crate::laws::sessions::first_header(req, "content-type"@, mime)
    ||| mime == "application/octet-stream"@ && !crate::laws::sessions::has_header(
        req,
        "content-type"@,
    )
}

/// The type of an upload by its headers.
proof fn lemma_type(req: ClientRequest, mime: Seq<char>)
    requires
        has_type(req, mime),
    ensures
        crate::proxy::media::upload_type(crate::wire::header_views(req.headers@)) == mime,
{
    let views = crate::wire::header_views(req.headers@);
    crate::laws::wire::lemma_first_header(req.headers@, "content-type"@);
    if crate::laws::sessions::first_header(req, "content-type"@, mime) {
        let i = choose|i: int|
            0 <= i < req.headers@.len() && (#[trigger] req.headers@[i]).name@ == "content-type"@
                && crate::wire::value_text(req.headers@[i].value@) == Some(mime) && forall|j: int|
                0 <= j < i ==> (#[trigger] req.headers@[j]).name@ != "content-type"@;
        assert(crate::wire::header_value(views, "content-type"@) is Some);
        let v = crate::wire::header_value(views, "content-type"@).unwrap();
        let k = choose|k: int|
            0 <= k < req.headers@.len() && (#[trigger] req.headers@[k]).name@ == "content-type"@
                && req.headers@[k].value@ == v && forall|j: int|
                0 <= j < k ==> (#[trigger] req.headers@[j]).name@ != "content-type"@;
        assert(k == i) by {
            if k < i {
                assert(req.headers@[k].name@ != "content-type"@);
            }
            if i < k {
                assert(req.headers@[i].name@ != "content-type"@);
            }
        }
    }
}

/// Once the homeserver took a sealed upload, what opens it is recorded under the address that
/// the homeserver gave it, and its type with the name that its request gave it; no other
/// record changes what it says. The client gets the answer as it came.
pub proof fn taken_uploads_are_recorded(
    daemon: ProxyDaemon,
    store: &mut PanStore,
    req: ClientRequest,
    info: MediaEncryptionInfo,
    response: UpstreamResponse,
    r: (ProxyResponse, Option<String>),
    host: Seq<char>,
    path: Seq<char>,
    media: MediaInfo,
    mime: Seq<char>,
    filename: Seq<char>,
)
    requires
        old(store).wf(),
        call_ensures(take_upload, (&daemon, store, &req, &Some(info), &response), r),
        taken_at(Some(info), response, address(host, path)),
        is_server(host),
        exists|server: &str, id: &str|
            server@ == host && id@ == path && #[trigger] call_ensures(
                record_of,
                (&info, server, id),
                media,
            ),
        crate::store::media_at(old(store)@, daemon@.server.name, host, path) == Ok::<
            Option<crate::store::MediaView>,
            StoreError,
        >(None),
        crate::json::reads_back(media.hashes@),
        has_type(req, mime),
    ensures
        r.1 matches Some(uri) && uri@ == address(host, path),
        crate::laws::routes::answers_with(r.0, response, response.body@),
        crate::store::media_at(final(store)@, daemon@.server.name, host, path) == Ok::<
            Option<crate::store::MediaView>,
            StoreError,
        >(Some(media@)),
        req.query matches Some(q) ==> (crate::laws::sessions::first_parameter(
            q@,
            "filename="@,
            filename,
        ) && crate::store::upload_at(
            old(store)@,
            daemon@.server.name,
            address(host, path),
        ) is None ==> crate::store::upload_at(
            final(store)@,
            daemon@.server.name,
            address(host, path),
        ) == Some((filename, mime))),
{
    crate::laws::wire::lemma_coming_down(crate::wire::header_views(response.headers@));
    lemma_address(host, path);
    lemma_type(req, mime);
    let uri = address(host, path);
    let name = daemon@.server.name;
    let tree = crate::client::media::info_view(info);
    assert(media@ == crate::client::media::media_from(tree, host, path));
    if let Some(q) = req.query {
        if crate::laws::sessions::first_parameter(q@, "filename="@, filename)
            && crate::store::upload_at(old(store)@, name, uri) is None {
            lemma_filename(q@, filename);
            let kept = crate::store::with_media(old(store)@, name, media@);
            assert(kept.uploads == old(store)@.uploads);
            crate::table::lemma_extended(
                kept.uploads,
                seq![name, uri],
                seq![filename, mime],
                seq![name, uri],
            );
        }
    }
}

/// The first parameter with a name.
proof fn lemma_filename(query: Seq<char>, value: Seq<char>)
    requires
        crate::laws::sessions::first_parameter(query, "filename="@, value),
    ensures
        crate::text::first_after_prefix(crate::text::split_on(query, '&'), "filename="@) == Some(
            value,
        ),
{
    let prefix = "filename="@;
    let pieces = crate::text::split_on(query, '&');
    crate::laws::sessions::lemma_parameter(pieces, prefix);
    let i = choose|i: int|
        0 <= i < pieces.len() && (#[trigger] pieces[i]) == prefix + value && forall|j: int|
            0 <= j < i ==> !prefix.is_prefix_of(#[trigger] pieces[j]);
    assert(pieces[i].subrange(0, prefix.len() as int) =~= prefix);
    assert(prefix.is_prefix_of(pieces[i]));
    let found = crate::text::first_after_prefix(pieces, prefix);
    assert(found is Some);
    let k = choose|k: int|
        0 <= k < pieces.len() && (#[trigger] pieces[k]) == prefix + found.unwrap() && forall|j: int|
            0 <= j < k ==> !prefix.is_prefix_of(#[trigger] pieces[j]);
    assert(pieces[k].subrange(0, prefix.len() as int) =~= prefix);
    assert(prefix.is_prefix_of(pieces[k]));
    assert(k == i);
    assert((prefix + value).skip(prefix.len() as int) =~= value);
    assert((prefix + found.unwrap()).skip(prefix.len() as int) =~= found.unwrap());
}

/// An upload that left as it came, that the homeserver refused, or whose answer names no
/// address, leaves no record.
pub proof fn other_uploads_leave_no_record(
    daemon: ProxyDaemon,
    store: &mut PanStore,
    req: ClientRequest,
    info: Option<MediaEncryptionInfo>,
    response: UpstreamResponse,
    r: (ProxyResponse, Option<String>),
)
    requires
        call_ensures(take_upload, (&daemon, store, &req, &info, &response), r),
        info is None || !(200 <= response.status < 300) || r.1 is None || !r.1.unwrap()@.contains(
            '/',
        ),
    ensures
        final(store)@ == old(store)@,
        crate::json::decoded(response.body@) is None ==> r.1 is None,
        (crate::json::decoded(response.body@) matches Some(JsonView::Object(_))) ==> (
        r.1 is Some <==> (crate::laws::syncs::under(
            crate::json::decoded(response.body@),
            "content_uri"@,
        ) matches Some(JsonView::Text(_)))),
        crate::laws::routes::answers_with(r.0, response, response.body@),
{
    crate::laws::wire::lemma_coming_down(crate::wire::header_views(response.headers@));
    if let Some(uri) = r.1 {
        if !uri@.contains('/') {
            lemma_no_address(uri@);
        }
    }
}

/// A text without a slash is no address.
proof fn lemma_no_address(uri: Seq<char>)
    requires
        !uri.contains('/'),
    ensures
        crate::client::media::mxc_parts(uri) is None,
{
    reveal_strlit("mxc://");
    if "mxc://"@.is_prefix_of(uri) {
        assert(uri.subrange(0, 6) =~= "mxc://"@);
        assert(uri[4] == "mxc://"@[4]);
        assert(uri.contains(uri[4]));
    }
    assert(crate::text::strip_copies(uri, "mxc://"@) == uri);
    uri.index_of_first_ensures('/');
}

/// A path to a download names the server and the identifier behind its first `/download/`,
/// whatever stands behind them.
pub proof fn download_paths_name_media(
    path: &str,
    r: Option<(&str, &str)>,
    prefix: Seq<char>,
    server: Seq<char>,
    id: Seq<char>,
    tail: Seq<char>,
)
    requires
        call_ensures(mxc_from_path, (path,), r),
        crate::text::find(prefix + "/download/"@, "/download/"@) == Some(prefix.len() as int),
        !server.contains('/'),
        !id.contains('/'),
        tail.len() == 0 || tail[0] == '/',
        path@ == prefix + "/download/"@ + (server + seq!['/'] + id) + tail,
    ensures
        r matches Some(p) && p.0@ == server && p.1@ == id,
{
    crate::proxy::media::path_names_address(prefix, server, id, tail);
}

/// A download is opened where its path names a medium whose keys are recorded and make sense:
/// it is fetched with these keys. Any other one is passed on.
pub proof fn downloads_are_planned(
    daemon: ProxyDaemon,
    store: PanStore,
    req: ClientRequest,
    r: DownloadPlan,
    named: Option<(&str, &str)>,
    name: &str,
    loaded: Result<Option<MediaInfo>, StoreError>,
    media: MediaInfo,
    means: Option<MediaEncryptionInfo>,
)
    requires
        call_ensures(download, (&daemon, &store, &req), r),
        exists|path: &str| path@ == req.path@ && #[trigger] call_ensures(mxc_from_path, (path,), named),
        name@ == daemon@.server.name,
        named matches Some(p) ==> call_ensures(
            PanStore::load_media,
            (&store, name, p.0, p.1),
            loaded,
        ),
        loaded matches Ok(Some(m)) ==> media@ == m@,
        call_ensures(info_of, (&media,), means),
    ensures
        r is Fetch <==> named is Some && (loaded matches Ok(Some(m)) && means is Some),
        match r {
            DownloadPlan::Forward(u) => crate::laws::routes::as_it_came(
                u,
                req,
                daemon@.server.homeserver,
            ),
            DownloadPlan::Fetch { request, info } => {
                &&& crate::client::media::info_view(info) == crate::client::media::info_view(
                    means.unwrap(),
                )
                &&& request.method@ == "GET"@
                &&& request.body is None
                &&& req.target matches Some(t) ==> request.url@ == crate::text::strip_end(
                    daemon@.server.homeserver,
                    '/',
                ) + t@
                &&& crate::wire::header_views(request.headers@) == crate::laws::wire::going_up(
                    crate::wire::header_views(req.headers@),
                    false,
                )
            },
        },
{
    crate::laws::wire::lemma_going_up(crate::wire::header_views(req.headers@), false);
}

/// What was fetched is given to the client opened; a failure of the homeserver is given to it
/// as it came, and what does not open is passed on after all.
pub proof fn downloads_are_opened(
    response: UpstreamResponse,
    info: MediaEncryptionInfo,
    r: DownloadStep,
    means: MediaEncryptionInfo,
    opened: Option<Vec<u8>>,
)
    requires
        call_ensures(download_answered, (&response, info), r),
        crate::client::media::info_view(means) == crate::client::media::info_view(info),
        call_ensures(PanClient::decrypt_attachment, (&response.body, means), opened),
    ensures
        !(200 <= response.status < 300) ==> (r matches DownloadStep::Respond(a)
            && crate::laws::routes::answers_with(a, response, response.body@)),
        200 <= response.status < 300 ==> match opened {
            Some(data) => r matches DownloadStep::Respond(a)
                && crate::laws::routes::answers_with(a, response, data@),
            None => r is Forward,
        },
{
    crate::laws::wire::lemma_coming_down(crate::wire::header_views(response.headers@));
}

/// Whoever downloads what was uploaded sealed gets what was uploaded: the homeserver gives the
/// upload an address that has no record yet, and later sends the sealed bytes from there.
pub proof fn uploads_come_back(
    daemon: ProxyDaemon,
    up: ClientRequest,
    plan: UploadPlan,
    store: &mut PanStore,
    taken: UpstreamResponse,
    r: (ProxyResponse, Option<String>),
    later: PanStore,
    down: ClientRequest,
    prefix: Seq<char>,
    server: Seq<char>,
    id: Seq<char>,
    tail: Seq<char>,
    fetch: DownloadPlan,
    sent: UpstreamResponse,
    step: DownloadStep,
)
    requires
        old(store).wf(),
        call_ensures(upload, (&daemon, &up), plan),
        plan.info is Some,
        call_ensures(take_upload, (&daemon, store, &up, &plan.info, &taken), r),
        taken_at(plan.info, taken, address(server, id)),
        !server.contains('/'),
        !id.contains('/'),
        crate::store::media_at(old(store)@, daemon@.server.name, server, id) == Ok::<
            Option<crate::store::MediaView>,
            StoreError,
        >(None),
        call_ensures(download, (&daemon, &later, &down), fetch),
        crate::text::find(prefix + "/download/"@, "/download/"@) == Some(prefix.len() as int),
        tail.len() == 0 || tail[0] == '/',
        down.path@ == prefix + "/download/"@ + (server + seq!['/'] + id) + tail,
        200 <= sent.status < 300,
        sent.body@ == plan.request.body.unwrap()@,
        fetch matches DownloadPlan::Fetch { info, .. } ==> call_ensures(
            download_answered,
            (&sent, info),
            step,
        ),
    ensures
        later@ == final(store)@ ==> {
            &&& fetch is Fetch
            &&& step matches DownloadStep::Respond(a)
            &&& crate::laws::routes::answers_with(a, sent, up.body@)
        },
{
    crate::laws::wire::lemma_coming_down(crate::wire::header_views(sent.headers@));
    if later@ == final(store)@ {
        crate::proxy::media::download_gives_back_upload(
            daemon@,
            old(store)@,
            final(store)@,
            up,
            plan,
            taken@,
            r.1.unwrap(),
            prefix,
            server,
            id,
            tail,
            down,
            fetch,
            sent@,
            step,
        );
    }
}

/// An upload whose address was read comes to what the answer with that address comes to.
pub proof fn uploads_are_recorded_alike(
    daemon: ProxyDaemon,
    store: &mut PanStore,
    req: ClientRequest,
    info: Option<MediaEncryptionInfo>,
    response: UpstreamResponse,
    r: (ProxyResponse, Option<String>),
    other: &mut PanStore,
    answer: ProxyResponse,
)
    requires
        call_ensures(take_upload, (&daemon, store, &req, &info, &response), r),
        call_ensures(upload_answered, (&daemon, other, &req, &info, &response, &r.1), answer),
        old(store)@ == old(other)@,
    ensures
        final(store)@ == final(other)@,
        r.0@ == answer@,
{
}

} // verus!
