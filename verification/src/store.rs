//! The daemon's records: who is logged in where, with which tokens, and the keys of
//! the media that were uploaded encrypted.

use vstd::prelude::*;
use crate::json::Json;
use crate::table::{key1, key2, key3, key4, Table};
use crate::text::same;

verus! {

/// The keys of an encrypted upload.
#[derive(Debug)]
pub struct MediaInfo {
    pub mxc_server: String,
    pub mxc_path: String,
    pub key: Json,
    pub iv: String,
    pub hashes: Json,
}

/// The name and the type under which a file was uploaded.
#[derive(Debug, Clone)]
pub struct UploadInfo {
    pub content_uri: String,
    pub filename: String,
    pub mimetype: String,
}

/// A stretch of a room's history that is still to be fetched.
#[derive(Debug, Clone)]
pub struct FetchTask {
    pub room_id: String,
    pub token: String,
}

/// A user with the token of their session.
#[derive(Debug, Clone)]
pub struct ClientInfo {
    pub user_id: String,
    pub access_token: String,
}

/// What can go wrong with a record.
#[derive(Debug, Clone, Copy, PartialEq, Eq, Structural)]
pub enum StoreError {
    /// The recorded keys of a medium are not JSON.
    BadMediaKeys,
}

/// The records.
#[derive(Debug)]
pub struct PanStore {
    version: i64,
    servers: Table,
    server_users: Table,
    access_tokens: Table,
    sync_tokens: Table,
    fetch_tasks: Table,
    media: Table,
    uploads: Table,
}

/// What the records say, table by table. The keys are: a server; a server and a user;
/// a user and a device; a server and a user; a server, a user, a room and a token; a
/// server and the two parts of an `mxc` address; a server and an `mxc` address.
#[verifier::ext_equal]
pub struct StoreView {
    pub version: int,
    pub servers: Seq<crate::table::RowView>,
    pub server_users: Seq<crate::table::RowView>,
    pub access_tokens: Seq<crate::table::RowView>,
    pub sync_tokens: Seq<crate::table::RowView>,
    pub fetch_tasks: Seq<crate::table::RowView>,
    pub media: Seq<crate::table::RowView>,
    pub uploads: Seq<crate::table::RowView>,
}

impl View for PanStore {
    type V = StoreView;

    closed spec fn view(&self) -> StoreView {
        StoreView {
            version: self.version as int,
            servers: self.servers@,
            server_users: self.server_users@,
            access_tokens: self.access_tokens@,
            sync_tokens: self.sync_tokens@,
            fetch_tasks: self.fetch_tasks@,
            media: self.media@,
            uploads: self.uploads@,
        }
    }
}

/// What the keys of a medium mean.
#[verifier::ext_equal]
pub struct MediaView {
    pub mxc_server: Seq<char>,
    pub mxc_path: Seq<char>,
    pub key: crate::json::JsonView,
    pub iv: Seq<char>,
    pub hashes: crate::json::JsonView,
}

impl View for MediaInfo {
    type V = MediaView;

    open spec fn view(&self) -> MediaView {
        MediaView {
            mxc_server: self.mxc_server@,
            mxc_path: self.mxc_path@,
            key: self.key@,
            iv: self.iv@,
            hashes: self.hashes@,
        }
    }
}

/// Whether the rows of a table have keys of `k` texts and values of `n`, and no key
/// comes twice.
pub open spec fn shaped(rows: Seq<crate::table::RowView>, k: nat, n: nat) -> bool {
    &&& crate::table::unique(rows)
    &&& forall|i: int|
        0 <= i < rows.len() ==> (#[trigger] rows[i]).0.len() == k && rows[i].1.len() == n
}

/// Whether the first text of each key is a recorded server.
pub open spec fn servers_known(
    servers: Seq<crate::table::RowView>,
    rows: Seq<crate::table::RowView>,
) -> bool {
    forall|i: int|
        0 <= i < rows.len() ==> crate::table::has_row(servers, seq![(#[trigger] rows[i]).0[0]])
}

/// Whether the first two texts of each key are a recorded user of a server.
pub open spec fn users_known(
    users: Seq<crate::table::RowView>,
    rows: Seq<crate::table::RowView>,
) -> bool {
    forall|i: int|
        0 <= i < rows.len() ==> crate::table::has_row(
            users,
            seq![(#[trigger] rows[i]).0[0], rows[i].0[1]],
        )
}

/// The records are consistent: every table has one row per key, and what a row refers
/// to is there.
pub open spec fn consistent(s: StoreView) -> bool {
    &&& shaped(s.servers, 1, 0)
    &&& shaped(s.server_users, 2, 0)
    &&& shaped(s.access_tokens, 2, 1)
    &&& shaped(s.sync_tokens, 2, 1)
    &&& shaped(s.fetch_tasks, 4, 0)
    &&& shaped(s.media, 3, 3)
    &&& shaped(s.uploads, 2, 2)
    &&& servers_known(s.servers, s.server_users)
    &&& users_known(s.server_users, s.sync_tokens)
    &&& users_known(s.server_users, s.fetch_tasks)
    &&& servers_known(s.servers, s.media)
    &&& servers_known(s.servers, s.uploads)
}

/// The value of a row that holds nothing but its key.
pub open spec fn nothing() -> Seq<Seq<char>> {
    Seq::empty()
}

/// The records with a server.
pub open spec fn with_server(s: StoreView, server: Seq<char>) -> StoreView {
    StoreView { servers: crate::table::extended(s.servers, seq![server], nothing()), ..s }
}

/// The records with a user of a server.
pub open spec fn with_user(s: StoreView, server: Seq<char>, user: Seq<char>) -> StoreView {
    let s = with_server(s, server);
    StoreView {
        server_users: crate::table::extended(s.server_users, seq![server, user], nothing()),
        ..s
    }
}

/// The records with the access token of a device.
pub open spec fn with_access_token(
    s: StoreView,
    user: Seq<char>,
    device: Seq<char>,
    token: Seq<char>,
) -> StoreView {
    StoreView {
        access_tokens: crate::table::updated(s.access_tokens, seq![user, device], seq![token]),
        ..s
    }
}

/// The records with the sync token of a user.
pub open spec fn with_sync_token(
    s: StoreView,
    server: Seq<char>,
    user: Seq<char>,
    token: Seq<char>,
) -> StoreView {
    let s = with_user(s, server, user);
    StoreView {
        sync_tokens: crate::table::updated(s.sync_tokens, seq![server, user], seq![token]),
        ..s
    }
}

/// The records with a fetch task, which moves last where it was there.
pub open spec fn with_fetch_task(
    s: StoreView,
    server: Seq<char>,
    user: Seq<char>,
    room: Seq<char>,
    token: Seq<char>,
) -> StoreView {
    let s = with_user(s, server, user);
    let key = seq![server, user, room, token];
    StoreView {
        fetch_tasks: crate::table::without(s.fetch_tasks, key).push((key, nothing())),
        ..s
    }
}

/// The records without a fetch task.
pub open spec fn without_fetch_task(
    s: StoreView,
    server: Seq<char>,
    user: Seq<char>,
    room: Seq<char>,
    token: Seq<char>,
) -> StoreView {
    StoreView {
        fetch_tasks: crate::table::without(s.fetch_tasks, seq![server, user, room, token]),
        ..s
    }
}

/// The records with the keys of a medium, unless it has some already.
pub open spec fn with_media_row(
    s: StoreView,
    server: Seq<char>,
    mxc_server: Seq<char>,
    mxc_path: Seq<char>,
    value: Seq<Seq<char>>,
) -> StoreView {
    let s = with_server(s, server);
    StoreView {
        media: crate::table::extended(s.media, seq![server, mxc_server, mxc_path], value),
        ..s
    }
}

/// The records with the keys of a medium as texts, unless it has some already.
pub open spec fn with_media(s: StoreView, server: Seq<char>, media: MediaView) -> StoreView {
    with_media_row(
        s,
        server,
        media.mxc_server,
        media.mxc_path,
        seq![crate::json::encoded(media.key), media.iv, crate::json::encoded(media.hashes)],
    )
}

/// The records with the name and type of an upload, unless it has some already.
pub open spec fn with_upload(
    s: StoreView,
    server: Seq<char>,
    uri: Seq<char>,
    filename: Seq<char>,
    mimetype: Seq<char>,
) -> StoreView {
    let s = with_server(s, server);
    StoreView {
        uploads: crate::table::extended(s.uploads, seq![server, uri], seq![filename, mimetype]),
        ..s
    }
}

/// The users of a server, in the order in which they came.
pub open spec fn users_of(rows: Seq<crate::table::RowView>, server: Seq<char>) -> Seq<Seq<char>>
    decreases rows.len(),
{
    if rows.len() == 0 {
        Seq::empty()
    } else if rows.last().0[0] == server {
        users_of(rows.drop_last(), server).push(rows.last().0[1])
    } else {
        users_of(rows.drop_last(), server)
    }
}

/// Users, devices and tokens.
pub open spec fn token_rows(rows: Seq<crate::table::RowView>) -> Seq<
    (Seq<char>, Seq<char>, Seq<char>),
> {
    rows.map_values(|r: crate::table::RowView| (r.0[0], r.0[1], r.1[0]))
}

/// The sessions of the users of a server: user, device and token.
pub open spec fn sessions_of(
    users: Seq<crate::table::RowView>,
    rows: Seq<crate::table::RowView>,
    server: Seq<char>,
) -> Seq<(Seq<char>, Seq<char>, Seq<char>)>
    decreases rows.len(),
{
    if rows.len() == 0 {
        Seq::empty()
    } else {
        let before = sessions_of(users, rows.drop_last(), server);
        let row = rows.last();
        if crate::table::has_row(users, seq![server, row.0[0]]) {
            before.push((row.0[0], row.0[1], row.1[0]))
        } else {
            before
        }
    }
}

/// The fetch tasks of a user: rooms and tokens.
pub open spec fn tasks_of(
    rows: Seq<crate::table::RowView>,
    server: Seq<char>,
    user: Seq<char>,
) -> Seq<(Seq<char>, Seq<char>)>
    decreases rows.len(),
{
    if rows.len() == 0 {
        Seq::empty()
    } else {
        let before = tasks_of(rows.drop_last(), server, user);
        let row = rows.last();
        if row.0[0] == server && row.0[1] == user {
            before.push((row.0[2], row.0[3]))
        } else {
            before
        }
    }
}

/// The recorded token of a device.
pub open spec fn access_token_at(s: StoreView, user: Seq<char>, device: Seq<char>) -> Option<
    Seq<char>,
> {
    match crate::table::value_at(s.access_tokens, seq![user, device]) {
        Some(v) => Some(v[0]),
        None => None,
    }
}

/// The recorded sync token of a user.
pub open spec fn sync_token_at(s: StoreView, server: Seq<char>, user: Seq<char>) -> Option<
    Seq<char>,
> {
    match crate::table::value_at(s.sync_tokens, seq![server, user]) {
        Some(v) => Some(v[0]),
        None => None,
    }
}

/// The recorded keys of a medium; an error where they are not JSON.
pub open spec fn media_at(
    s: StoreView,
    server: Seq<char>,
    mxc_server: Seq<char>,
    mxc_path: Seq<char>,
) -> Result<Option<MediaView>, StoreError> {
    match crate::table::value_at(s.media, seq![server, mxc_server, mxc_path]) {
        None => Ok(None),
        Some(v) => match (
            crate::json::decoded(vstd::utf8::encode_utf8(v[0])),
            crate::json::decoded(vstd::utf8::encode_utf8(v[2])),
        ) {
            (Some(key), Some(hashes)) => Ok(
                Some(MediaView { mxc_server, mxc_path, key, iv: v[1], hashes }),
            ),
            _ => Err(StoreError::BadMediaKeys),
        },
    }
}

/// The recorded name and type of an upload.
pub open spec fn upload_at(s: StoreView, server: Seq<char>, uri: Seq<char>) -> Option<
    (Seq<char>, Seq<char>),
> {
    match crate::table::value_at(s.uploads, seq![server, uri]) {
        Some(v) => Some((v[0], v[1])),
        None => None,
    }
}

/// A table keeps its shape when a row is added.
proof fn lemma_shape_extended(
    rows: Seq<crate::table::RowView>,
    k: nat,
    n: nat,
    key: Seq<Seq<char>>,
    value: Seq<Seq<char>>,
)
    requires
        shaped(rows, k, n),
        key.len() == k,
        value.len() == n,
    ensures
        shaped(crate::table::extended(rows, key, value), k, n),
{
    crate::table::lemma_extended(rows, key, value, key);
}

/// A table keeps its shape when a row is set.
proof fn lemma_shape_updated(
    rows: Seq<crate::table::RowView>,
    k: nat,
    n: nat,
    key: Seq<Seq<char>>,
    value: Seq<Seq<char>>,
)
    requires
        shaped(rows, k, n),
        key.len() == k,
        value.len() == n,
    ensures
        shaped(crate::table::updated(rows, key, value), k, n),
{
    crate::table::lemma_updated(rows, key, value, key);
    crate::table::lemma_place(rows, key);
}

/// A table keeps its shape when a row is taken out.
proof fn lemma_shape_without(
    rows: Seq<crate::table::RowView>,
    k: nat,
    n: nat,
    key: Seq<Seq<char>>,
)
    requires
        shaped(rows, k, n),
    ensures
        shaped(crate::table::without(rows, key), k, n),
{
    crate::table::lemma_without(rows, key, key);
    crate::table::lemma_place(rows, key);
    let new = crate::table::without(rows, key);
    assert forall|i: int| 0 <= i < new.len() implies (#[trigger] new[i]).0.len() == k
        && new[i].1.len() == n by {
        match crate::table::place(rows, key) {
            Some(p) => {
                let a = if i < p {
                    i
                } else {
                    i + 1
                };
                assert(new[i] == rows[a]);
            },
            None => {},
        }
    }
}

/// What is known stays known when a row is added.
proof fn lemma_known_extended(
    known: Seq<crate::table::RowView>,
    key: Seq<Seq<char>>,
    value: Seq<Seq<char>>,
    rows: Seq<crate::table::RowView>,
)
    requires
        crate::table::unique(known),
    ensures
        servers_known(known, rows) ==> servers_known(
            crate::table::extended(known, key, value),
            rows,
        ),
        users_known(known, rows) ==> users_known(crate::table::extended(known, key, value), rows),
{
    let new = crate::table::extended(known, key, value);
    if servers_known(known, rows) {
        assert forall|i: int| 0 <= i < rows.len() implies crate::table::has_row(
            new,
            seq![(#[trigger] rows[i]).0[0]],
        ) by {
            crate::table::lemma_extended(known, key, value, seq![rows[i].0[0]]);
        }
    }
    if users_known(known, rows) {
        assert forall|i: int| 0 <= i < rows.len() implies crate::table::has_row(
            new,
            seq![(#[trigger] rows[i]).0[0], rows[i].0[1]],
        ) by {
            crate::table::lemma_extended(known, key, value, seq![rows[i].0[0], rows[i].0[1]]);
        }
    }
}

/// Consistent records stay so with another server.
proof fn lemma_with_server(s: StoreView, server: Seq<char>)
    requires
        consistent(s),
    ensures
        consistent(with_server(s, server)),
        crate::table::has_row(with_server(s, server).servers, seq![server]),
{
    let key = seq![server];
    lemma_shape_extended(s.servers, 1, 0, key, nothing());
    crate::table::lemma_extended(s.servers, key, nothing(), key);
    lemma_known_extended(s.servers, key, nothing(), s.server_users);
    lemma_known_extended(s.servers, key, nothing(), s.media);
    lemma_known_extended(s.servers, key, nothing(), s.uploads);
}

/// Consistent records stay so with another user.
proof fn lemma_with_user(s: StoreView, server: Seq<char>, user: Seq<char>)
    requires
        consistent(s),
    ensures
        consistent(with_user(s, server, user)),
        crate::table::has_row(with_user(s, server, user).server_users, seq![server, user]),
{
    lemma_with_server(s, server);
    let t = with_server(s, server);
    let key = seq![server, user];
    lemma_shape_extended(t.server_users, 2, 0, key, nothing());
    crate::table::lemma_extended(t.server_users, key, nothing(), key);
    lemma_known_extended(t.server_users, key, nothing(), t.sync_tokens);
    lemma_known_extended(t.server_users, key, nothing(), t.fetch_tasks);
    let new = crate::table::extended(t.server_users, key, nothing());
    assert forall|i: int| 0 <= i < new.len() implies crate::table::has_row(
        t.servers,
        seq![(#[trigger] new[i]).0[0]],
    ) by {
        if i < t.server_users.len() {
            assert(new[i] == t.server_users[i]);
        }
    }
}

/// Consistent records stay so when a sync token is saved.
proof fn lemma_with_sync_token(s: StoreView, server: Seq<char>, user: Seq<char>, token: Seq<char>)
    requires
        consistent(s),
    ensures
        consistent(with_sync_token(s, server, user, token)),
{
    lemma_with_user(s, server, user);
    let t = with_user(s, server, user);
    let key = seq![server, user];
    lemma_shape_updated(t.sync_tokens, 2, 1, key, seq![token]);
    crate::table::lemma_place(t.sync_tokens, key);
    let new = crate::table::updated(t.sync_tokens, key, seq![token]);
    assert forall|i: int| 0 <= i < new.len() implies crate::table::has_row(
        t.server_users,
        seq![(#[trigger] new[i]).0[0], new[i].0[1]],
    ) by {
        if i < t.sync_tokens.len() {
            let row = t.sync_tokens[i];
            assert(crate::table::has_row(t.server_users, seq![row.0[0], row.0[1]]));
        }
    }
}

/// Consistent records stay so when a fetch task is saved.
proof fn lemma_with_fetch_task(
    s: StoreView,
    server: Seq<char>,
    user: Seq<char>,
    room: Seq<char>,
    token: Seq<char>,
)
    requires
        consistent(s),
    ensures
        consistent(with_fetch_task(s, server, user, room, token)),
{
    lemma_with_user(s, server, user);
    let t = with_user(s, server, user);
    let key = seq![server, user, room, token];
    lemma_without_fetch_task(t, server, user, room, token);
    let less = crate::table::without(t.fetch_tasks, key);
    crate::table::lemma_without(t.fetch_tasks, key, key);
    crate::table::lemma_updated(less, key, nothing(), key);
    let new = less.push((key, nothing()));
    assert forall|i: int| 0 <= i < new.len() implies crate::table::has_row(
        t.server_users,
        seq![(#[trigger] new[i]).0[0], new[i].0[1]],
    ) by {
        if i < less.len() {
            let row = less[i];
            assert(crate::table::has_row(t.server_users, seq![row.0[0], row.0[1]]));
        }
    }
}

/// Consistent records stay so when a fetch task is deleted.
proof fn lemma_without_fetch_task(
    s: StoreView,
    server: Seq<char>,
    user: Seq<char>,
    room: Seq<char>,
    token: Seq<char>,
)
    requires
        consistent(s),
    ensures
        consistent(without_fetch_task(s, server, user, room, token)),
{
    let key = seq![server, user, room, token];
    lemma_shape_without(s.fetch_tasks, 4, 0, key);
    crate::table::lemma_place(s.fetch_tasks, key);
    let new = crate::table::without(s.fetch_tasks, key);
    assert forall|i: int| 0 <= i < new.len() implies crate::table::has_row(
        s.server_users,
        seq![(#[trigger] new[i]).0[0], new[i].0[1]],
    ) by {
        let a = match crate::table::place(s.fetch_tasks, key) {
            Some(p) => if i < p {
                i
            } else {
                i + 1
            },
            None => i,
        };
        let row = s.fetch_tasks[a];
        assert(new[i] == row);
        assert(crate::table::has_row(s.server_users, seq![row.0[0], row.0[1]]));
    }
}

/// Consistent records stay so when the keys of a medium are saved.
proof fn lemma_with_media_row(
    s: StoreView,
    server: Seq<char>,
    mxc_server: Seq<char>,
    mxc_path: Seq<char>,
    value: Seq<Seq<char>>,
)
    requires
        consistent(s),
        value.len() == 3,
    ensures
        consistent(with_media_row(s, server, mxc_server, mxc_path, value)),
{
    lemma_with_server(s, server);
    let t = with_server(s, server);
    let key = seq![server, mxc_server, mxc_path];
    lemma_shape_extended(t.media, 3, 3, key, value);
    let new = crate::table::extended(t.media, key, value);
    assert forall|i: int| 0 <= i < new.len() implies crate::table::has_row(
        t.servers,
        seq![(#[trigger] new[i]).0[0]],
    ) by {
        if i < t.media.len() {
            assert(new[i] == t.media[i]);
        }
    }
}

/// Consistent records stay so when an upload is saved.
proof fn lemma_with_upload(
    s: StoreView,
    server: Seq<char>,
    uri: Seq<char>,
    filename: Seq<char>,
    mimetype: Seq<char>,
)
    requires
        consistent(s),
    ensures
        consistent(with_upload(s, server, uri, filename, mimetype)),
{
    lemma_with_server(s, server);
    let t = with_server(s, server);
    let key = seq![server, uri];
    let value = seq![filename, mimetype];
    lemma_shape_extended(t.uploads, 2, 2, key, value);
    let new = crate::table::extended(t.uploads, key, value);
    assert forall|i: int| 0 <= i < new.len() implies crate::table::has_row(
        t.servers,
        seq![(#[trigger] new[i]).0[0]],
    ) by {
        if i < t.uploads.len() {
            assert(new[i] == t.uploads[i]);
        }
    }
}

/// Two keys of two texts are the same where the texts are.
proof fn lemma_pair(a: Seq<char>, b: Seq<char>, c: Seq<char>, d: Seq<char>)
    ensures
        seq![a, b] == seq![c, d] <==> a == c && b == d,
{
    assert(seq![a, b][0] == a && seq![a, b][1] == b);
    assert(seq![c, d][0] == c && seq![c, d][1] == d);
}

/// A key of two texts is the two texts.
proof fn lemma_pair_of(key: Seq<Seq<char>>)
    requires
        key.len() == 2,
    ensures
        key == seq![key[0], key[1]],
{
    assert(key =~= seq![key[0], key[1]]);
}

/// The token of a device is read back as it was last saved. Saving it changes the
/// token of no other device, and no other table.
pub proof fn access_token_read_back(
    s: StoreView,
    user: Seq<char>,
    device: Seq<char>,
    token: Seq<char>,
    other_user: Seq<char>,
    other_device: Seq<char>,
)
    requires
        consistent(s),
    ensures
        access_token_at(with_access_token(s, user, device, token), user, device) == Some(token),
        (other_user, other_device) != (user, device) ==> access_token_at(
            with_access_token(s, user, device, token),
            other_user,
            other_device,
        ) == access_token_at(s, other_user, other_device),
        with_access_token(s, user, device, token) == (StoreView {
            access_tokens: with_access_token(s, user, device, token).access_tokens,
            ..s
        }),
{
    lemma_pair(user, device, other_user, other_device);
    crate::table::lemma_updated(
        s.access_tokens,
        seq![user, device],
        seq![token],
        seq![other_user, other_device],
    );
}

/// The sync token of a user is read back as it was last saved. Saving it changes the
/// sync token of no other user.
pub proof fn sync_token_read_back(
    s: StoreView,
    server: Seq<char>,
    user: Seq<char>,
    token: Seq<char>,
    other_server: Seq<char>,
    other_user: Seq<char>,
)
    requires
        consistent(s),
    ensures
        sync_token_at(with_sync_token(s, server, user, token), server, user) == Some(token),
        (other_server, other_user) != (server, user) ==> sync_token_at(
            with_sync_token(s, server, user, token),
            other_server,
            other_user,
        ) == sync_token_at(s, other_server, other_user),
{
    lemma_pair(server, user, other_server, other_user);
    crate::table::lemma_updated(
        s.sync_tokens,
        seq![server, user],
        seq![token],
        seq![other_server, other_user],
    );
}

/// The keys of a medium are those that were saved first. Saving keys changes those of
/// no other medium.
pub proof fn media_keys_stay(
    s: StoreView,
    server: Seq<char>,
    media: MediaView,
    other_server: Seq<char>,
    other_mxc_server: Seq<char>,
    other_mxc_path: Seq<char>,
)
    requires
        consistent(s),
    ensures
        media_at(s, server, media.mxc_server, media.mxc_path) != Ok::<
            Option<MediaView>,
            StoreError,
        >(None) ==> media_at(
            with_media(s, server, media),
            server,
            media.mxc_server,
            media.mxc_path,
        ) == media_at(s, server, media.mxc_server, media.mxc_path),
        (other_server, other_mxc_server, other_mxc_path) != (
            server,
            media.mxc_server,
            media.mxc_path,
        ) ==> media_at(
            with_media(s, server, media),
            other_server,
            other_mxc_server,
            other_mxc_path,
        ) == media_at(s, other_server, other_mxc_server, other_mxc_path),
{
    let key = seq![server, media.mxc_server, media.mxc_path];
    let other = seq![other_server, other_mxc_server, other_mxc_path];
    assert(key[0] == server && key[1] == media.mxc_server && key[2] == media.mxc_path);
    assert(other[0] == other_server && other[1] == other_mxc_server && other[2] == other_mxc_path);
    crate::table::lemma_extended(
        s.media,
        key,
        seq![crate::json::encoded(media.key), media.iv, crate::json::encoded(media.hashes)],
        other,
    );
}

/// The keys of a medium that were saved first are read back, every part as it was, also
/// once others were saved for the same medium. It holds of all keys that are read, from the
/// texts that are written for them, as they were.
pub proof fn first_keys_read_back(s: StoreView, server: Seq<char>, first: MediaView, second: MediaView)
    requires
        consistent(s),
        media_at(s, server, first.mxc_server, first.mxc_path) == Ok::<
            Option<MediaView>,
            StoreError,
        >(None),
        crate::json::decoded(vstd::utf8::encode_utf8(crate::json::encoded(first.key))) == Some(
            first.key,
        ),
        crate::json::decoded(vstd::utf8::encode_utf8(crate::json::encoded(first.hashes))) == Some(
            first.hashes,
        ),
        second.mxc_server == first.mxc_server,
        second.mxc_path == first.mxc_path,
    ensures
        media_at(
            with_media(with_media(s, server, first), server, second),
            server,
            first.mxc_server,
            first.mxc_path,
        ) == Ok::<Option<MediaView>, StoreError>(Some(first)),
{
    let key = seq![server, first.mxc_server, first.mxc_path];
    let value = seq![
        crate::json::encoded(first.key),
        first.iv,
        crate::json::encoded(first.hashes),
    ];
    crate::table::lemma_extended(s.media, key, value, key);
    lemma_with_media_row(s, server, first.mxc_server, first.mxc_path, value);
    media_keys_stay(
        with_media(s, server, first),
        server,
        second,
        server,
        first.mxc_server,
        first.mxc_path,
    );
}

/// The name and type of an upload are those that were saved first. Saving them changes
/// those of no other upload.
pub proof fn upload_read_back(
    s: StoreView,
    server: Seq<char>,
    uri: Seq<char>,
    filename: Seq<char>,
    mimetype: Seq<char>,
    other_server: Seq<char>,
    other_uri: Seq<char>,
)
    requires
        consistent(s),
    ensures
        upload_at(with_upload(s, server, uri, filename, mimetype), server, uri) == match upload_at(
            s,
            server,
            uri,
        ) {
            Some(u) => Some(u),
            None => Some((filename, mimetype)),
        },
        (other_server, other_uri) != (server, uri) ==> upload_at(
            with_upload(s, server, uri, filename, mimetype),
            other_server,
            other_uri,
        ) == upload_at(s, other_server, other_uri),
{
    lemma_pair(server, uri, other_server, other_uri);
    crate::table::lemma_extended(
        s.uploads,
        seq![server, uri],
        seq![filename, mimetype],
        seq![other_server, other_uri],
    );
}

/// The users listed for a server are those that have a row.
proof fn lemma_users_listed(
    rows: Seq<crate::table::RowView>,
    server: Seq<char>,
    user: Seq<char>,
)
    requires
        shaped(rows, 2, 0),
    ensures
        users_of(rows, server).contains(user) <==> crate::table::has_row(rows, seq![server, user]),
        users_of(rows, server).no_duplicates(),
    decreases rows.len(),
{
    if rows.len() > 0 {
        let before = rows.drop_last();
        let row = rows.last();
        assert(shaped(before, 2, 0)) by {
            assert forall|i: int| 0 <= i < before.len() implies (#[trigger] before[i]).0.len() == 2
                && before[i].1.len() == 0 by {
                assert(before[i] == rows[i]);
            }
        }
        lemma_users_listed(before, server, user);
        lemma_pair_of(row.0);
        lemma_pair(row.0[0], row.0[1], server, user);
        if row.0[0] == server {
            let list = users_of(before, server);
            assert(list.push(row.0[1]).contains(user) <==> list.contains(user) || row.0[1] == user)
                by {
                if list.contains(user) {
                    let i = choose|i: int| 0 <= i < list.len() && list[i] == user;
                    assert(list.push(row.0[1])[i] == user);
                }
                assert(list.push(row.0[1])[list.len() as int] == row.0[1]);
            }
            lemma_users_listed(before, server, row.0[1]);
            crate::table::lemma_place(before, row.0);
            match crate::table::place(before, row.0) {
                Some(i) => {
                    assert(rows[i].0 != rows[rows.len() - 1].0);
                },
                None => {},
            }
            assert(!list.contains(row.0[1]));
        }
    }
}

/// A user who was saved on a server is listed there, and no user is listed twice.
/// Saving a user adds nobody else to any server and takes nobody away.
pub proof fn users_listed(
    s: StoreView,
    server: Seq<char>,
    user: Seq<char>,
    other_server: Seq<char>,
    other_user: Seq<char>,
)
    requires
        consistent(s),
    ensures
        users_of(with_user(s, server, user).server_users, server).contains(user),
        users_of(with_user(s, server, user).server_users, server).no_duplicates(),
        (other_server, other_user) != (server, user) ==> (users_of(
            with_user(s, server, user).server_users,
            other_server,
        ).contains(other_user) <==> users_of(s.server_users, other_server).contains(other_user)),
{
    lemma_with_user(s, server, user);
    let t = with_user(s, server, user);
    lemma_users_listed(t.server_users, server, user);
    lemma_users_listed(t.server_users, other_server, other_user);
    lemma_users_listed(s.server_users, other_server, other_user);
    lemma_pair(server, user, other_server, other_user);
    crate::table::lemma_extended(
        s.server_users,
        seq![server, user],
        nothing(),
        seq![other_server, other_user],
    );
}

/// A session is listed for a server exactly where its user is known on the server and
/// its token is the recorded one.
pub proof fn sessions_listed(
    s: StoreView,
    server: Seq<char>,
    user: Seq<char>,
    device: Seq<char>,
    token: Seq<char>,
)
    requires
        consistent(s),
    ensures
        sessions_of(s.server_users, s.access_tokens, server).contains((user, device, token)) <==> {
            &&& users_of(s.server_users, server).contains(user)
            &&& access_token_at(s, user, device) == Some(token)
        },
{
    lemma_users_listed(s.server_users, server, user);
    lemma_sessions_listed(s.server_users, s.access_tokens, server, user, device, token);
    crate::table::lemma_place(s.access_tokens, seq![user, device]);
    assert(seq![token][0] == token);
    match crate::table::place(s.access_tokens, seq![user, device]) {
        Some(i) => {
            let value = s.access_tokens[i].1;
            assert(value =~= seq![value[0]]);
        },
        None => {},
    }
}

/// The sessions listed for a server are the rows whose user has a row there.
proof fn lemma_sessions_listed(
    users: Seq<crate::table::RowView>,
    rows: Seq<crate::table::RowView>,
    server: Seq<char>,
    user: Seq<char>,
    device: Seq<char>,
    token: Seq<char>,
)
    requires
        shaped(rows, 2, 1),
    ensures
        sessions_of(users, rows, server).contains((user, device, token)) <==> {
            &&& crate::table::has_row(users, seq![server, user])
            &&& crate::table::value_at(rows, seq![user, device]) == Some(seq![token])
        },
    decreases rows.len(),
{
    let entry = (user, device, token);
    if rows.len() > 0 {
        let before = rows.drop_last();
        let row = rows.last();
        assert(shaped(before, 2, 1)) by {
            assert forall|i: int| 0 <= i < before.len() implies (#[trigger] before[i]).0.len() == 2
                && before[i].1.len() == 1 by {
                assert(before[i] == rows[i]);
            }
        }
        lemma_sessions_listed(users, before, server, user, device, token);
        lemma_pair_of(row.0);
        lemma_pair(row.0[0], row.0[1], user, device);
        assert(row.1 =~= seq![row.1[0]]);
        assert(seq![token][0] == token);
        crate::table::lemma_place(before, seq![user, device]);
        match crate::table::place(before, seq![user, device]) {
            Some(i) => {
                assert(rows[i] == before[i]);
                assert(rows[i].0 != rows[rows.len() - 1].0);
            },
            None => {},
        }
        let list = sessions_of(users, before, server);
        let last = (row.0[0], row.0[1], row.1[0]);
        assert(list.push(last).contains(entry) <==> list.contains(entry) || last == entry) by {
            if list.contains(entry) {
                let i = choose|i: int| 0 <= i < list.len() && list[i] == entry;
                assert(list.push(last)[i] == entry);
            }
            assert(list.push(last)[list.len() as int] == last);
        }
    }
}

/// The tasks listed for a user are those that have a row.
proof fn lemma_tasks_listed(
    rows: Seq<crate::table::RowView>,
    server: Seq<char>,
    user: Seq<char>,
    room: Seq<char>,
    token: Seq<char>,
)
    requires
        shaped(rows, 4, 0),
    ensures
        tasks_of(rows, server, user).contains((room, token)) <==> crate::table::has_row(
            rows,
            seq![server, user, room, token],
        ),
    decreases rows.len(),
{
    let entry = (room, token);
    if rows.len() > 0 {
        let before = rows.drop_last();
        let row = rows.last();
        assert(shaped(before, 4, 0)) by {
            assert forall|i: int| 0 <= i < before.len() implies (#[trigger] before[i]).0.len() == 4
                && before[i].1.len() == 0 by {
                assert(before[i] == rows[i]);
            }
        }
        lemma_tasks_listed(before, server, user, room, token);
        lemma_quad(row.0, server, user, room, token);
        let list = tasks_of(before, server, user);
        let last = (row.0[2], row.0[3]);
        assert(list.push(last).contains(entry) <==> list.contains(entry) || last == entry) by {
            if list.contains(entry) {
                let i = choose|i: int| 0 <= i < list.len() && list[i] == entry;
                assert(list.push(last)[i] == entry);
            }
            assert(list.push(last)[list.len() as int] == last);
        }
    }
}

/// A key of four texts is told by its texts.
proof fn lemma_quad(
    key: Seq<Seq<char>>,
    a: Seq<char>,
    b: Seq<char>,
    c: Seq<char>,
    d: Seq<char>,
)
    requires
        key.len() == 4,
    ensures
        key == seq![a, b, c, d] <==> key[0] == a && key[1] == b && key[2] == c && key[3] == d,
{
    if key[0] == a && key[1] == b && key[2] == c && key[3] == d {
        assert(key =~= seq![a, b, c, d]);
    }
    assert(seq![a, b, c, d][0] == a);
    assert(seq![a, b, c, d][1] == b);
    assert(seq![a, b, c, d][2] == c);
    assert(seq![a, b, c, d][3] == d);
}

/// A task that was saved is listed, one that was deleted is not, and neither changes
/// whether another task is listed.
pub proof fn fetch_tasks_listed(
    s: StoreView,
    server: Seq<char>,
    user: Seq<char>,
    room: Seq<char>,
    token: Seq<char>,
    other_server: Seq<char>,
    other_user: Seq<char>,
    other_room: Seq<char>,
    other_token: Seq<char>,
)
    requires
        consistent(s),
    ensures
        ({
            let saved = with_fetch_task(s, server, user, room, token).fetch_tasks;
            let deleted = without_fetch_task(s, server, user, room, token).fetch_tasks;
            let other = (other_room, other_token);
            &&& tasks_of(saved, server, user).contains((room, token))
            &&& !tasks_of(deleted, server, user).contains((room, token))
            &&& (other_server, other_user, other_room, other_token) != (server, user, room, token)
                ==> {
                &&& tasks_of(saved, other_server, other_user).contains(other) <==> tasks_of(
                    s.fetch_tasks,
                    other_server,
                    other_user,
                ).contains(other)
                &&& tasks_of(deleted, other_server, other_user).contains(other) <==> tasks_of(
                    s.fetch_tasks,
                    other_server,
                    other_user,
                ).contains(other)
            }
        }),
{
    let key = seq![server, user, room, token];
    let other = seq![other_server, other_user, other_room, other_token];
    lemma_with_fetch_task(s, server, user, room, token);
    lemma_without_fetch_task(s, server, user, room, token);
    let saved = with_fetch_task(s, server, user, room, token).fetch_tasks;
    let deleted = without_fetch_task(s, server, user, room, token).fetch_tasks;
    lemma_quad(key, other_server, other_user, other_room, other_token);
    assert(key[0] == server && key[1] == user && key[2] == room && key[3] == token);
    crate::table::lemma_without(s.fetch_tasks, key, other);
    crate::table::lemma_updated(deleted, key, nothing(), other);
    lemma_tasks_listed(saved, server, user, room, token);
    lemma_tasks_listed(deleted, server, user, room, token);
    lemma_tasks_listed(saved, other_server, other_user, other_room, other_token);
    lemma_tasks_listed(deleted, other_server, other_user, other_room, other_token);
    lemma_tasks_listed(s.fetch_tasks, other_server, other_user, other_room, other_token);
}

impl PanStore {
    /// Whether the records are consistent.
    pub open spec fn wf(&self) -> bool {
        consistent(self@)
    }

    /// Records that say nothing, of the schema version that was recorded, or else of
    /// the first one.
    pub fn new(recorded_version: Option<i64>) -> (r: PanStore)
        ensures
            r.wf(),
            r@ == (StoreView {
                version: match recorded_version {
                    Some(v) => v as int,
                    None => 1,
                },
                servers: Seq::empty(),
                server_users: Seq::empty(),
                access_tokens: Seq::empty(),
                sync_tokens: Seq::empty(),
                fetch_tasks: Seq::empty(),
                media: Seq::empty(),
                uploads: Seq::empty(),
            }),
    {
        let version: i64 = match recorded_version {
            Some(v) => v,
            None => 1,
        };
        PanStore {
            version,
            servers: Table::new(),
            server_users: Table::new(),
            access_tokens: Table::new(),
            sync_tokens: Table::new(),
            fetch_tasks: Table::new(),
            media: Table::new(),
            uploads: Table::new(),
        }
    }

    /// The version of the schema.
    pub fn schema_version(&self) -> (r: i64)
        ensures
            r == self@.version,
    {
        self.version
    }

    /// Records a server.
    fn get_or_create_server(&mut self, server_name: &str)
        requires
            old(self).wf(),
        ensures
            final(self).wf(),
            final(self)@ == with_server(old(self)@, server_name@),
    {
        proof {
            lemma_with_server(self@, server_name@);
        }
        let value: Vec<String> = Vec::new();
        assert(crate::table::chars_of(value@) =~= nothing());
        self.servers.extend(key1(server_name), value);
    }

    /// Records a user of a server.
    fn get_or_create_server_user(&mut self, server_name: &str, user_id: &str)
        requires
            old(self).wf(),
        ensures
            final(self).wf(),
            final(self)@ == with_user(old(self)@, server_name@, user_id@),
    {
        proof {
            lemma_with_user(self@, server_name@, user_id@);
        }
        self.get_or_create_server(server_name);
        let value: Vec<String> = Vec::new();
        assert(crate::table::chars_of(value@) =~= nothing());
        self.server_users.extend(key2(server_name, user_id), value);
    }

    /// Records that a user is known on a server.
    pub fn save_server_user(&mut self, server_name: &str, user_id: &str)
        requires
            old(self).wf(),
        ensures
            final(self).wf(),
            final(self)@ == with_user(old(self)@, server_name@, user_id@),
    {
        self.get_or_create_server_user(server_name, user_id);
    }

    /// The users of a server, in the order in which they came.
    pub fn load_users(&self, server_name: &str) -> (r: Vec<String>)
        requires
            self.wf(),
        ensures
            crate::table::chars_of(r@) == users_of(self@.server_users, server_name@),
    {
        let mut out: Vec<String> = Vec::new();
        let ghost rows = self@.server_users;
        let mut i: usize = 0;
        assert(crate::table::chars_of(out@) =~= users_of(rows.take(0), server_name@));
        while i < self.server_users.len()
            invariant
                self.wf(),
                rows == self@.server_users,
                self@.server_users == self.server_users@,
                i <= rows.len(),
                crate::table::chars_of(out@) == users_of(rows.take(i as int), server_name@),
            decreases rows.len() - i,
        {
            let row = self.server_users.row(i);
            let ghost now = rows.take(i + 1);
            assert(now.drop_last() == rows.take(i as int));
            assert(now.last() == rows[i as int]);
            assert(row.key@.len() == crate::table::chars_of(row.key@).len());
            if same(row.key[0].as_str(), server_name) {
                let ghost before = crate::table::chars_of(out@);
                out.push(row.key[1].clone());
                assert(crate::table::chars_of(out@) =~= before.push(row@.0[1]));
            }
            i = i + 1;
        }
        assert(rows.take(i as int) == rows);
        out
    }

    /// Records the access token of a device, over the one it had.
    pub fn save_access_token(&mut self, user_id: &str, device_id: &str, token: &str)
        requires
            old(self).wf(),
        ensures
            final(self).wf(),
            final(self)@ == with_access_token(old(self)@, user_id@, device_id@, token@),
    {
        proof {
            lemma_shape_updated(
                self@.access_tokens,
                2,
                1,
                seq![user_id@, device_id@],
                seq![token@],
            );
        }
        self.access_tokens.update(key2(user_id, device_id), key1(token));
    }

    /// The recorded access token of a device.
    pub fn load_access_token(&self, user_id: &str, device_id: &str) -> (r: Option<String>)
        requires
            self.wf(),
        ensures
            r is Some <==> access_token_at(self@, user_id@, device_id@) is Some,
            r matches Some(t) ==> access_token_at(self@, user_id@, device_id@) == Some(t@),
    {
        proof {
            crate::table::lemma_place(self@.access_tokens, seq![user_id@, device_id@]);
        }
        match self.access_tokens.get(&key2(user_id, device_id)) {
            Some(v) => {
                assert(v@.len() == crate::table::chars_of(v@).len());
                Some(v[0].clone())
            },
            None => None,
        }
    }

    /// All recorded access tokens: users, devices and tokens.
    pub fn load_all_tokens(&self) -> (r: Vec<(String, String, String)>)
        requires
            self.wf(),
        ensures
            r@.map_values(|t: (String, String, String)| (t.0@, t.1@, t.2@)) == token_rows(
                self@.access_tokens,
            ),
    {
        let mut out: Vec<(String, String, String)> = Vec::new();
        let ghost rows = self@.access_tokens;
        let mut i: usize = 0;
        while i < self.access_tokens.len()
            invariant
                self.wf(),
                rows == self@.access_tokens,
                self@.access_tokens == self.access_tokens@,
                i <= rows.len(),
                out@.len() == i,
                forall|j: int|
                    0 <= j < i ==> {
                        &&& (#[trigger] out@[j]).0@ == rows[j].0[0]
                        &&& out@[j].1@ == rows[j].0[1]
                        &&& out@[j].2@ == rows[j].1[0]
                    },
            decreases rows.len() - i,
        {
            let row = self.access_tokens.row(i);
            assert(row.key@.len() == crate::table::chars_of(row.key@).len());
            assert(row.value@.len() == crate::table::chars_of(row.value@).len());
            out.push((row.key[0].clone(), row.key[1].clone(), row.value[0].clone()));
            i = i + 1;
        }
        assert(out@.map_values(|t: (String, String, String)| (t.0@, t.1@, t.2@)) =~= token_rows(
            rows,
        ));
        out
    }

    /// The sessions of the users of a server: users, devices and tokens.
    pub fn load_session_tokens(&self, server_name: &str) -> (r: Vec<(String, String, String)>)
        requires
            self.wf(),
        ensures
            r@.map_values(|t: (String, String, String)| (t.0@, t.1@, t.2@)) == sessions_of(
                self@.server_users,
                self@.access_tokens,
                server_name@,
            ),
    {
        let mut out: Vec<(String, String, String)> = Vec::new();
        let ghost rows = self@.access_tokens;
        let ghost users = self@.server_users;
        let ghost view = |t: (String, String, String)| (t.0@, t.1@, t.2@);
        let mut i: usize = 0;
        assert(out@.map_values(view) =~= sessions_of(users, rows.take(0), server_name@));
        while i < self.access_tokens.len()
            invariant
                self.wf(),
                rows == self@.access_tokens,
                self@.access_tokens == self.access_tokens@,
                users == self@.server_users,
                self@.server_users == self.server_users@,
                view == (|t: (String, String, String)| (t.0@, t.1@, t.2@)),
                i <= rows.len(),
                out@.map_values(view) == sessions_of(users, rows.take(i as int), server_name@),
            decreases rows.len() - i,
        {
            let row = self.access_tokens.row(i);
            let ghost now = rows.take(i + 1);
            assert(now.drop_last() == rows.take(i as int));
            assert(now.last() == rows[i as int]);
            assert(row.key@.len() == crate::table::chars_of(row.key@).len());
            assert(row.value@.len() == crate::table::chars_of(row.value@).len());
            if self.server_users.get(&key2(server_name, row.key[0].as_str())).is_some() {
                let ghost before = out@.map_values(view);
                let entry = (row.key[0].clone(), row.key[1].clone(), row.value[0].clone());
                out.push(entry);
                assert(out@.map_values(view) =~= before.push(view(entry)));
            }
            i = i + 1;
        }
        assert(rows.take(i as int) == rows);
        out
    }

    /// Records where the history of a user stands, over what was there.
    pub fn save_sync_token(&mut self, server_name: &str, user_id: &str, token: &str)
        requires
            old(self).wf(),
        ensures
            final(self).wf(),
            final(self)@ == with_sync_token(old(self)@, server_name@, user_id@, token@),
    {
        proof {
            lemma_with_sync_token(self@, server_name@, user_id@, token@);
        }
        self.get_or_create_server_user(server_name, user_id);
        self.sync_tokens.update(key2(server_name, user_id), key1(token));
    }

    /// Where the history of a user stands.
    pub fn load_sync_token(&self, server_name: &str, user_id: &str) -> (r: Option<String>)
        requires
            self.wf(),
        ensures
            r is Some <==> sync_token_at(self@, server_name@, user_id@) is Some,
            r matches Some(t) ==> sync_token_at(self@, server_name@, user_id@) == Some(t@),
    {
        proof {
            crate::table::lemma_place(self@.sync_tokens, seq![server_name@, user_id@]);
        }
        match self.sync_tokens.get(&key2(server_name, user_id)) {
            Some(v) => {
                assert(v@.len() == crate::table::chars_of(v@).len());
                Some(v[0].clone())
            },
            None => None,
        }
    }

    /// Records a stretch of history that is to be fetched.
    pub fn save_fetcher_task(&mut self, server_name: &str, user_id: &str, task: &FetchTask)
        requires
            old(self).wf(),
        ensures
            final(self).wf(),
            final(self)@ == with_fetch_task(
                old(self)@,
                server_name@,
                user_id@,
                task.room_id@,
                task.token@,
            ),
    {
        proof {
            lemma_with_fetch_task(self@, server_name@, user_id@, task.room_id@, task.token@);
        }
        self.get_or_create_server_user(server_name, user_id);
        let key = key4(server_name, user_id, task.room_id.as_str(), task.token.as_str());
        let value: Vec<String> = Vec::new();
        assert(crate::table::chars_of(value@) =~= nothing());
        let ghost tasks = self@.fetch_tasks;
        proof {
            crate::table::lemma_without(
                tasks,
                crate::table::chars_of(key@),
                crate::table::chars_of(key@),
            );
        }
        self.fetch_tasks.remove(&key);
        self.fetch_tasks.update(key, value);
    }

    /// The stretches of history that are to be fetched for a user.
    pub fn load_fetcher_tasks(&self, server_name: &str, user_id: &str) -> (r: Vec<FetchTask>)
        requires
            self.wf(),
        ensures
            r@.map_values(|t: FetchTask| (t.room_id@, t.token@)) == tasks_of(
                self@.fetch_tasks,
                server_name@,
                user_id@,
            ),
    {
        let mut out: Vec<FetchTask> = Vec::new();
        let ghost rows = self@.fetch_tasks;
        let ghost view = |t: FetchTask| (t.room_id@, t.token@);
        let mut i: usize = 0;
        assert(out@.map_values(view) =~= tasks_of(rows.take(0), server_name@, user_id@));
        while i < self.fetch_tasks.len()
            invariant
                self.wf(),
                rows == self@.fetch_tasks,
                self@.fetch_tasks == self.fetch_tasks@,
                view == (|t: FetchTask| (t.room_id@, t.token@)),
                i <= rows.len(),
                out@.map_values(view) == tasks_of(rows.take(i as int), server_name@, user_id@),
            decreases rows.len() - i,
        {
            let row = self.fetch_tasks.row(i);
            let ghost now = rows.take(i + 1);
            assert(now.drop_last() == rows.take(i as int));
            assert(now.last() == rows[i as int]);
            assert(row.key@.len() == crate::table::chars_of(row.key@).len());
            if same(row.key[0].as_str(), server_name) && same(row.key[1].as_str(), user_id) {
                let ghost before = out@.map_values(view);
                let task = FetchTask { room_id: row.key[2].clone(), token: row.key[3].clone() };
                out.push(task);
                assert(out@.map_values(view) =~= before.push(view(task)));
            }
            i = i + 1;
        }
        assert(rows.take(i as int) == rows);
        out
    }

    /// Forgets a stretch of history.
    pub fn delete_fetcher_task(&mut self, server_name: &str, user_id: &str, task: &FetchTask)
        requires
            old(self).wf(),
        ensures
            final(self).wf(),
            final(self)@ == without_fetch_task(
                old(self)@,
                server_name@,
                user_id@,
                task.room_id@,
                task.token@,
            ),
    {
        proof {
            lemma_without_fetch_task(self@, server_name@, user_id@, task.room_id@, task.token@);
        }
        let key = key4(server_name, user_id, task.room_id.as_str(), task.token.as_str());
        self.fetch_tasks.remove(&key);
    }

    /// Records the keys of a medium as they were recorded before: the JSON of its key,
    /// its initialisation vector and the JSON of its hashes.
    pub fn restore_media(
        &mut self,
        server_name: &str,
        mxc_server: &str,
        mxc_path: &str,
        key: &str,
        iv: &str,
        hashes: &str,
    )
        requires
            old(self).wf(),
        ensures
            final(self).wf(),
            final(self)@ == with_media_row(
                old(self)@,
                server_name@,
                mxc_server@,
                mxc_path@,
                seq![key@, iv@, hashes@],
            ),
    {
        proof {
            lemma_with_media_row(
                self@,
                server_name@,
                mxc_server@,
                mxc_path@,
                seq![key@, iv@, hashes@],
            );
        }
        self.get_or_create_server(server_name);
        self.media.extend(key3(server_name, mxc_server, mxc_path), key3(key, iv, hashes));
    }

    /// Records the keys of a medium, unless it has some already. They are read back as
    /// they were, where they are JSON that comes back from its text.
    pub fn save_media(&mut self, server_name: &str, media: &MediaInfo)
        requires
            old(self).wf(),
        ensures
            final(self).wf(),
            final(self)@ == with_media(old(self)@, server_name@, media@),
            media_at(old(self)@, server_name@, media.mxc_server@, media.mxc_path@) == Ok::<
                Option<MediaView>,
                StoreError,
            >(None) && crate::json::reads_back(media.key@) && crate::json::reads_back(
                media.hashes@,
            ) ==> media_at(final(self)@, server_name@, media.mxc_server@, media.mxc_path@) == Ok::<
                Option<MediaView>,
                StoreError,
            >(Some(media@)),
    {
        let key = media.key.copy().write();
        let hashes = media.hashes.copy().write();
        let ghost before = self@;
        self.restore_media(
            server_name,
            media.mxc_server.as_str(),
            media.mxc_path.as_str(),
            key.as_str(),
            media.iv.as_str(),
            hashes.as_str(),
        );
        proof {
            crate::table::lemma_extended(
                before.media,
                seq![server_name@, media.mxc_server@, media.mxc_path@],
                seq![key@, media.iv@, hashes@],
                seq![server_name@, media.mxc_server@, media.mxc_path@],
            );
        }
    }

    /// The recorded keys of a medium.
    pub fn load_media(&self, server_name: &str, mxc_server: &str, mxc_path: &str) -> (r: Result<
        Option<MediaInfo>,
        StoreError,
    >)
        requires
            self.wf(),
        ensures
            match r {
                Ok(Some(m)) => media_at(self@, server_name@, mxc_server@, mxc_path@) == Ok::<
                    Option<MediaView>,
                    StoreError,
                >(Some(m@)),
                Ok(None) => media_at(self@, server_name@, mxc_server@, mxc_path@) == Ok::<
                    Option<MediaView>,
                    StoreError,
                >(None),
                Err(e) => media_at(self@, server_name@, mxc_server@, mxc_path@) == Err::<
                    Option<MediaView>,
                    StoreError,
                >(e),
            },
    {
        proof {
            crate::table::lemma_place(self@.media, seq![server_name@, mxc_server@, mxc_path@]);
        }
        match self.media.get(&key3(server_name, mxc_server, mxc_path)) {
            Some(v) => {
                assert(v@.len() == crate::table::chars_of(v@).len());
                assert(crate::table::chars_of(v@)[0] == v@[0]@);
                assert(crate::table::chars_of(v@)[1] == v@[1]@);
                assert(crate::table::chars_of(v@)[2] == v@[2]@);
                match (Json::parse(v[0].as_str().as_bytes()), Json::parse(v[2].as_str().as_bytes())) {
                    (Some(key), Some(hashes)) => Ok(
                        Some(
                            MediaInfo {
                                mxc_server: mxc_server.to_owned(),
                                mxc_path: mxc_path.to_owned(),
                                key,
                                iv: v[1].clone(),
                                hashes,
                            },
                        ),
                    ),
                    _ => Err(StoreError::BadMediaKeys),
                }
            },
            None => Ok(None),
        }
    }

    /// Records the name and type of an upload, unless it has some already.
    pub fn save_upload(
        &mut self,
        server_name: &str,
        content_uri: &str,
        filename: &str,
        mimetype: &str,
    )
        requires
            old(self).wf(),
        ensures
            final(self).wf(),
            final(self)@ == with_upload(
                old(self)@,
                server_name@,
                content_uri@,
                filename@,
                mimetype@,
            ),
    {
        proof {
            lemma_with_upload(self@, server_name@, content_uri@, filename@, mimetype@);
        }
        self.get_or_create_server(server_name);
        self.uploads.extend(key2(server_name, content_uri), key2(filename, mimetype));
    }

    /// The recorded name and type of an upload.
    pub fn load_upload(&self, server_name: &str, content_uri: &str) -> (r: Option<UploadInfo>)
        requires
            self.wf(),
        ensures
            r is Some <==> upload_at(self@, server_name@, content_uri@) is Some,
            r matches Some(u) ==> u.content_uri@ == content_uri@ && upload_at(
                self@,
                server_name@,
                content_uri@,
            ) == Some((u.filename@, u.mimetype@)),
    {
        proof {
            crate::table::lemma_place(self@.uploads, seq![server_name@, content_uri@]);
        }
        match self.uploads.get(&key2(server_name, content_uri)) {
            Some(v) => {
                assert(v@.len() == crate::table::chars_of(v@).len());
                assert(crate::table::chars_of(v@)[0] == v@[0]@);
                assert(crate::table::chars_of(v@)[1] == v@[1]@);
                Some(
                    UploadInfo {
                        content_uri: content_uri.to_owned(),
                        filename: v[0].clone(),
                        mimetype: v[1].clone(),
                    },
                )
            },
            None => None,
        }
    }
}

} // verus!
