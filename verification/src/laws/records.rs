//! Laws of the records: what is saved is loaded again, and nothing else changes.

use vstd::prelude::*;
use crate::store::{FetchTask, MediaInfo, PanStore, StoreError, UploadInfo};

verus! {

/// Whether an optional text is the given one.
pub open spec fn is_text(r: Option<String>, t: Seq<char>) -> bool {
    r matches Some(s) && s@ == t
}

/// Whether two optional texts are the same.
pub open spec fn same_text(a: Option<String>, b: Option<String>) -> bool {
    match (a, b) {
        (Some(x), Some(y)) => x@ == y@,
        (None, None) => true,
        _ => false,
    }
}

/// The token of a device is loaded as it was last saved, and saving it leaves the tokens of
/// all other devices, of this user and of others, as they were.
pub proof fn tokens_are_kept(
    store: &mut PanStore,
    user: &str,
    device: &str,
    token: &str,
    earlier: PanStore,
    later: PanStore,
    u: &str,
    d: &str,
    before: Option<String>,
    after: Option<String>,
)
    requires
        old(store).wf(),
        call_ensures(PanStore::save_access_token, (store, user, device, token), ()),
        call_ensures(PanStore::load_access_token, (&earlier, u, d), before),
        call_ensures(PanStore::load_access_token, (&later, u, d), after),
        earlier@ == old(store)@,
    ensures
        later@ == final(store)@ ==> if u@ == user@ && d@ == device@ {
            is_text(after, token@)
        } else {
            same_text(before, after)
        },
{
    crate::store::access_token_read_back(old(store)@, user@, device@, token@, u@, d@);
}

/// Where the history of a user stands is loaded as it was last saved, and saving it leaves
/// that of all other users, on this server and on others, as it was.
pub proof fn sync_tokens_are_kept(
    store: &mut PanStore,
    server: &str,
    user: &str,
    token: &str,
    earlier: PanStore,
    later: PanStore,
    s: &str,
    u: &str,
    before: Option<String>,
    after: Option<String>,
)
    requires
        old(store).wf(),
        call_ensures(PanStore::save_sync_token, (store, server, user, token), ()),
        call_ensures(PanStore::load_sync_token, (&earlier, s, u), before),
        call_ensures(PanStore::load_sync_token, (&later, s, u), after),
        earlier@ == old(store)@,
    ensures
        later@ == final(store)@ ==> if s@ == server@ && u@ == user@ {
            is_text(after, token@)
        } else {
            same_text(before, after)
        },
{
    crate::store::sync_token_read_back(old(store)@, server@, user@, token@, s@, u@);
}

/// Whether a list of texts has a text.
pub open spec fn has_text(list: Seq<String>, t: Seq<char>) -> bool {
    exists|i: int| 0 <= i < list.len() && (#[trigger] list[i])@ == t
}

/// The users of a server with one more row.
proof fn lemma_users_pushed(
    rows: Seq<crate::table::RowView>,
    row: crate::table::RowView,
    server: Seq<char>,
)
    ensures
        crate::store::users_of(rows.push(row), server) == if row.0[0] == server {
            crate::store::users_of(rows, server).push(row.0[1])
        } else {
            crate::store::users_of(rows, server)
        },
{
    assert(rows.push(row).drop_last() =~= rows);
    assert(rows.push(row).last() == row);
}

/// A user who is saved on a server is listed there from then on: last where they are new, and
/// in their place where they are not; and the users of all other servers stay as they were.
pub proof fn users_are_kept(
    store: &mut PanStore,
    server: &str,
    user: &str,
    earlier: PanStore,
    later: PanStore,
    s: &str,
    before: Vec<String>,
    after: Vec<String>,
)
    requires
        old(store).wf(),
        call_ensures(PanStore::save_server_user, (store, server, user), ()),
        call_ensures(PanStore::load_users, (&earlier, s), before),
        call_ensures(PanStore::load_users, (&later, s), after),
        earlier@ == old(store)@,
    ensures
        later@ == final(store)@ ==> if s@ == server@ && !crate::table::chars_of(
            before@,
        ).contains(user@) {
            crate::table::chars_of(after@) == crate::table::chars_of(before@).push(user@)
        } else {
            crate::table::chars_of(after@) == crate::table::chars_of(before@)
        },
{
    let rows = old(store)@.server_users;
    crate::store::users_listed(old(store)@, server@, user@, server@, user@);
    lemma_users_pushed(rows, (seq![server@, user@], crate::store::nothing()), s@);
    lemma_row_listed(rows, server@, user@);
}

/// A user has a row on a server where they are listed there.
proof fn lemma_row_listed(
    rows: Seq<crate::table::RowView>,
    server: Seq<char>,
    user: Seq<char>,
)
    requires
        crate::store::shaped(rows, 2, 0),
    ensures
        crate::store::users_of(rows, server).contains(user) <==> crate::table::has_row(
            rows,
            seq![server, user],
        ),
    decreases rows.len(),
{
    let all = crate::store::users_of(rows, server);
    crate::table::lemma_place(rows, seq![server, user]);
    if rows.len() > 0 {
        let less = rows.drop_last();
        assert forall|i: int| 0 <= i < less.len() implies (#[trigger] less[i]).0.len() == 2
            && less[i].1.len() == 0 by {
            assert(less[i] == rows[i]);
        }
        assert forall|i: int, j: int| 0 <= i < j < less.len() implies (#[trigger] less[i]).0 != (
        #[trigger] less[j]).0 by {
            assert(less[i] == rows[i] && less[j] == rows[j]);
        }
        lemma_row_listed(less, server, user);
        let before = crate::store::users_of(less, server);
        let last = rows.last();
        assert(rows[rows.len() - 1] == last);
        assert(last.0 == seq![server, user] <==> last.0[0] == server && last.0[1] == user) by {
            assert(last.0 =~= seq![last.0[0], last.0[1]]);
            assert(seq![server, user][0] == server && seq![server, user][1] == user);
        }
        if before.contains(user) {
            let k = choose|k: int| 0 <= k < before.len() && before[k] == user;
            assert(all[k] == user);
        }
        if last.0[0] == server && last.0[1] == user {
            assert(all[all.len() - 1] == user);
        }
        if all.contains(user) {
            let k = choose|k: int| 0 <= k < all.len() && all[k] == user;
            if k < before.len() {
                assert(before[k] == user);
            }
        }
    }
}

/// A user whose row is there or is added is listed.
pub proof fn lemma_row_added(
    rows: Seq<crate::table::RowView>,
    server: Seq<char>,
    user: Seq<char>,
)
    requires
        crate::store::shaped(rows, 2, 0),
    ensures
        crate::store::users_of(
            crate::table::extended(rows, seq![server, user], crate::store::nothing()),
            server,
        ).contains(user),
{
    let key = seq![server, user];
    lemma_row_listed(rows, server, user);
    if !crate::table::has_row(rows, key) {
        assert(key[0] == server && key[1] == user);
        lemma_users_pushed(rows, (key, crate::store::nothing()), server);
        let all = crate::store::users_of(rows.push((key, crate::store::nothing())), server);
        assert(all[all.len() - 1] == user);
    }
}

/// The tasks of a user with one more row.
proof fn lemma_tasks_pushed(
    rows: Seq<crate::table::RowView>,
    row: crate::table::RowView,
    server: Seq<char>,
    user: Seq<char>,
)
    ensures
        crate::store::tasks_of(rows.push(row), server, user) == if row.0[0] == server && row.0[1]
            == user {
            crate::store::tasks_of(rows, server, user).push((row.0[2], row.0[3]))
        } else {
            crate::store::tasks_of(rows, server, user)
        },
{
    assert(rows.push(row).drop_last() =~= rows);
    assert(rows.push(row).last() == row);
}

/// A list of tasks without one of them.
pub open spec fn other_tasks(
    tasks: Seq<(Seq<char>, Seq<char>)>,
    room: Seq<char>,
    token: Seq<char>,
) -> Seq<(Seq<char>, Seq<char>)> {
    tasks.filter(|t: (Seq<char>, Seq<char>)| t != (room, token))
}

/// The tasks of a user once a row is taken out.
proof fn lemma_tasks_without(
    rows: Seq<crate::table::RowView>,
    server: Seq<char>,
    user: Seq<char>,
    room: Seq<char>,
    token: Seq<char>,
    s: Seq<char>,
    u: Seq<char>,
)
    requires
        crate::store::shaped(rows, 4, 0),
    ensures
        crate::store::tasks_of(
            crate::table::without(rows, seq![server, user, room, token]),
            s,
            u,
        ) == if s == server && u == user {
            other_tasks(crate::store::tasks_of(rows, s, u), room, token)
        } else {
            crate::store::tasks_of(rows, s, u)
        },
    decreases rows.len(),
{
    reveal(Seq::filter);
    let key = seq![server, user, room, token];
    if rows.len() > 0 {
        let less = rows.drop_last();
        let last = rows.last();
        let n = rows.len() - 1;
        assert(rows[n] == last);
        assert forall|i: int| 0 <= i < less.len() implies (#[trigger] less[i]).0.len() == 4
            && less[i].1.len() == 0 by {
            assert(less[i] == rows[i]);
        }
        assert forall|i: int, j: int| 0 <= i < j < less.len() implies (#[trigger] less[i]).0 != (
        #[trigger] less[j]).0 by {
            assert(less[i] == rows[i] && less[j] == rows[j]);
        }
        lemma_tasks_without(less, server, user, room, token, s, u);
        crate::table::lemma_place(less, key);
        assert(key[0] == server && key[1] == user && key[2] == room && key[3] == token);
        assert(last.0 =~= seq![last.0[0], last.0[1], last.0[2], last.0[3]]);
        if last.0 == key {
            assert(rows.remove(n) =~= less);
            assert(crate::table::place(less, key) is None) by {
                if let Some(i) = crate::table::place(less, key) {
                    assert(rows[i].0 != rows[n].0);
                }
            }
            assert(crate::table::without(less, key) == less);
        } else {
            match crate::table::place(less, key) {
                Some(i) => {
                    assert(rows.remove(i) =~= less.remove(i).push(last));
                },
                None => {
                    assert(rows =~= less.push(last));
                },
            }
            assert(crate::table::without(rows, key) =~= crate::table::without(less, key).push(
                last,
            ));
            lemma_tasks_pushed(crate::table::without(less, key), last, s, u);
            if s == server && u == user && last.0[0] == s && last.0[1] == u {
                assert((last.0[2], last.0[3]) != (room, token)) by {
                    if last.0[2] == room && last.0[3] == token {
                        assert(last.0 =~= key);
                    }
                }
            }
        }
        let before = crate::store::tasks_of(less, s, u);
        let all = crate::store::tasks_of(rows, s, u);
        if last.0[0] == s && last.0[1] == u {
            assert(all.drop_last() =~= before);
            assert(all.last() == (last.0[2], last.0[3]));
        }
    }
}

/// What a list of tasks means.
pub open spec fn task_pairs(tasks: Seq<FetchTask>) -> Seq<(Seq<char>, Seq<char>)> {
    tasks.map_values(|t: FetchTask| (t.room_id@, t.token@))
}

/// A task that is saved for a user is the last of theirs from then on, whether they had it or
/// not; one that is deleted is gone. The other tasks of the user keep their order, and those of
/// all others stay as they were.
pub proof fn tasks_are_kept(
    store: &mut PanStore,
    server: &str,
    user: &str,
    task: FetchTask,
    earlier: PanStore,
    later: PanStore,
    s: &str,
    u: &str,
    before: Vec<FetchTask>,
    after: Vec<FetchTask>,
)
    requires
        old(store).wf(),
        call_ensures(PanStore::load_fetcher_tasks, (&earlier, s, u), before),
        call_ensures(PanStore::load_fetcher_tasks, (&later, s, u), after),
        earlier@ == old(store)@,
    ensures
        later@ == final(store)@ && call_ensures(
            PanStore::save_fetcher_task,
            (store, server, user, &task),
            (),
        ) ==> task_pairs(after@) == if s@ == server@ && u@ == user@ {
            other_tasks(task_pairs(before@), task.room_id@, task.token@).push(
                (task.room_id@, task.token@),
            )
        } else {
            task_pairs(before@)
        },
        later@ == final(store)@ && call_ensures(
            PanStore::delete_fetcher_task,
            (store, server, user, &task),
            (),
        ) ==> task_pairs(after@) == if s@ == server@ && u@ == user@ {
            other_tasks(task_pairs(before@), task.room_id@, task.token@)
        } else {
            task_pairs(before@)
        },
{
    let rows = old(store)@.fetch_tasks;
    let key = seq![server@, user@, task.room_id@, task.token@];
    assert(key[0] == server@ && key[1] == user@ && key[2] == task.room_id@ && key[3]
        == task.token@);
    lemma_tasks_without(rows, server@, user@, task.room_id@, task.token@, s@, u@);
    lemma_tasks_pushed(
        crate::table::without(rows, key),
        (key, crate::store::nothing()),
        s@,
        u@,
    );
    assert(task_pairs(before@) == before@.map_values(|t: FetchTask| (t.room_id@, t.token@)));
    assert(task_pairs(after@) == after@.map_values(|t: FetchTask| (t.room_id@, t.token@)));
}

/// A session is loaded for a server exactly where its user is listed there and its token is
/// the one that is recorded for its device.
pub proof fn sessions_are_loaded(
    store: PanStore,
    server: &str,
    sessions: Vec<(String, String, String)>,
    users: Vec<String>,
    user: &str,
    device: &str,
    token: Option<String>,
    t: Seq<char>,
)
    requires
        store.wf(),
        call_ensures(PanStore::load_session_tokens, (&store, server), sessions),
        call_ensures(PanStore::load_users, (&store, server), users),
        call_ensures(PanStore::load_access_token, (&store, user, device), token),
    ensures
        (exists|i: int|
            0 <= i < sessions@.len() && (#[trigger] sessions@[i]).0@ == user@ && sessions@[i].1@
                == device@ && sessions@[i].2@ == t) <==> has_text(users@, user@) && is_text(
            token,
            t,
        ),
{
    let all = sessions@.map_values(|s: (String, String, String)| (s.0@, s.1@, s.2@));
    crate::store::sessions_listed(store@, server@, user@, device@, t);
    if exists|i: int|
        0 <= i < sessions@.len() && (#[trigger] sessions@[i]).0@ == user@ && sessions@[i].1@
            == device@ && sessions@[i].2@ == t {
        let i = choose|i: int|
            0 <= i < sessions@.len() && (#[trigger] sessions@[i]).0@ == user@ && sessions@[i].1@
                == device@ && sessions@[i].2@ == t;
        assert(all[i] == (user@, device@, t));
    }
    if all.contains((user@, device@, t)) {
        let i = choose|i: int| 0 <= i < all.len() && all[i] == (user@, device@, t);
        assert(sessions@[i].0@ == user@);
    }
    let names = crate::table::chars_of(users@);
    if has_text(users@, user@) {
        let i = choose|i: int| 0 <= i < users@.len() && (#[trigger] users@[i])@ == user@;
        assert(names[i] == user@);
    }
    if names.contains(user@) {
        let i = choose|i: int| 0 <= i < names.len() && names[i] == user@;
        assert(users@[i]@ == user@);
    }
}

/// The keys of a medium are loaded as they were first saved, every part in its place; saving
/// other keys for it changes nothing, and neither does it change the keys of any other medium.
pub proof fn media_keys_are_kept(
    store: &mut PanStore,
    server: &str,
    media: MediaInfo,
    earlier: PanStore,
    later: PanStore,
    s: &str,
    host: &str,
    path: &str,
    before: Result<Option<MediaInfo>, StoreError>,
    after: Result<Option<MediaInfo>, StoreError>,
)
    requires
        old(store).wf(),
        call_ensures(PanStore::save_media, (store, server, &media), ()),
        call_ensures(PanStore::load_media, (&earlier, s, host, path), before),
        call_ensures(PanStore::load_media, (&later, s, host, path), after),
        earlier@ == old(store)@,
        crate::json::reads_back(media.key@),
        crate::json::reads_back(media.hashes@),
    ensures
        later@ == final(store)@ ==> {
            let same = s@ == server@ && host@ == media.mxc_server@ && path@ == media.mxc_path@;
            if same && before matches Ok(None) {
                &&& after matches Ok(Some(m))
                &&& m.mxc_server@ == media.mxc_server@
                &&& m.mxc_path@ == media.mxc_path@
                &&& m.key@ == media.key@
                &&& m.iv@ == media.iv@
                &&& m.hashes@ == media.hashes@
            } else {
                match (before, after) {
                    (Ok(Some(a)), Ok(Some(b))) => a@ == b@,
                    (Ok(None), Ok(None)) => true,
                    (Err(a), Err(b)) => a == b,
                    _ => false,
                }
            }
        },
{
    crate::store::media_keys_stay(old(store)@, server@, media@, s@, host@, path@);
}

/// The name and the type of an upload are loaded as they were first saved, and those of all
/// other uploads stay as they were.
pub proof fn uploads_are_kept(
    store: &mut PanStore,
    server: &str,
    uri: &str,
    filename: &str,
    mimetype: &str,
    earlier: PanStore,
    later: PanStore,
    s: &str,
    other: &str,
    before: Option<UploadInfo>,
    after: Option<UploadInfo>,
)
    requires
        old(store).wf(),
        call_ensures(PanStore::save_upload, (store, server, uri, filename, mimetype), ()),
        call_ensures(PanStore::load_upload, (&earlier, s, other), before),
        call_ensures(PanStore::load_upload, (&later, s, other), after),
        earlier@ == old(store)@,
    ensures
        later@ == final(store)@ ==> match (before, after) {
            (Some(a), Some(b)) => a.content_uri@ == b.content_uri@ && a.filename@ == b.filename@
                && a.mimetype@ == b.mimetype@,
            (None, Some(b)) => {
                &&& s@ == server@
                &&& other@ == uri@
                &&& b.content_uri@ == uri@
                &&& b.filename@ == filename@
                &&& b.mimetype@ == mimetype@
            },
            (None, None) => s@ != server@ || other@ != uri@,
            (Some(_), None) => false,
        },
{
    crate::store::upload_read_back(
        old(store)@,
        server@,
        uri@,
        filename@,
        mimetype@,
        s@,
        other@,
    );
}

/// Records that begin hold nothing, and are of the version that was recorded, or of the first.
pub proof fn records_begin_empty(
    version: Option<i64>,
    store: PanStore,
    v: i64,
    server: &str,
    users: Vec<String>,
    user: &str,
    device: &str,
    token: Option<String>,
    tokens: Vec<(String, String, String)>,
)
    requires
        call_ensures(PanStore::new, (version,), store),
        call_ensures(PanStore::schema_version, (&store,), v),
        call_ensures(PanStore::load_users, (&store, server), users),
        call_ensures(PanStore::load_access_token, (&store, user, device), token),
        call_ensures(PanStore::load_all_tokens, (&store,), tokens),
    ensures
        version matches Some(n) ==> v == n,
        version is None ==> v == 1,
        users@.len() == 0,
        token is None,
        tokens@.len() == 0,
{
    assert(crate::table::chars_of(users@).len() == users@.len());
    assert(tokens@.map_values(|t: (String, String, String)| (t.0@, t.1@, t.2@)).len()
        == tokens@.len());
}

/// All tokens are loaded, each with its user and its device.
pub proof fn all_tokens_are_loaded(
    store: PanStore,
    tokens: Vec<(String, String, String)>,
    i: int,
    user: &str,
    device: &str,
    token: Option<String>,
)
    requires
        store.wf(),
        call_ensures(PanStore::load_all_tokens, (&store,), tokens),
        0 <= i < tokens@.len(),
        user@ == tokens@[i].0@,
        device@ == tokens@[i].1@,
        call_ensures(PanStore::load_access_token, (&store, user, device), token),
    ensures
        is_text(token, tokens@[i].2@),
{
    let rows = store@.access_tokens;
    let all = tokens@.map_values(|t: (String, String, String)| (t.0@, t.1@, t.2@));
    assert(all.len() == rows.len());
    assert(all[i] == (tokens@[i].0@, tokens@[i].1@, tokens@[i].2@));
    assert(all[i] == (rows[i].0[0], rows[i].0[1], rows[i].1[0]));
    assert(rows[i].0.len() == 2);
    assert(rows[i].0 =~= seq![user@, device@]);
    crate::table::lemma_place_unique(rows, i);
}

/// The keys of a medium that were recorded as texts are loaded as what these texts say; where
/// one of them says nothing, the record is damaged.
pub proof fn recorded_texts_are_loaded(
    store: &mut PanStore,
    server: &str,
    host: &str,
    path: &str,
    key: &str,
    iv: &str,
    hashes: &str,
    earlier: PanStore,
    later: PanStore,
    before: Result<Option<MediaInfo>, StoreError>,
    after: Result<Option<MediaInfo>, StoreError>,
)
    requires
        old(store).wf(),
        call_ensures(PanStore::restore_media, (store, server, host, path, key, iv, hashes), ()),
        call_ensures(PanStore::load_media, (&earlier, server, host, path), before),
        call_ensures(PanStore::load_media, (&later, server, host, path), after),
        earlier@ == old(store)@,
        before matches Ok(None),
    ensures
        later@ == final(store)@ ==> match (
            crate::json::decoded(vstd::utf8::encode_utf8(key@)),
            crate::json::decoded(vstd::utf8::encode_utf8(hashes@)),
        ) {
            (Some(k), Some(h)) => {
                &&& after matches Ok(Some(m))
                &&& m.mxc_server@ == host@
                &&& m.mxc_path@ == path@
                &&& m.key@ == k
                &&& m.iv@ == iv@
                &&& m.hashes@ == h
            },
            _ => after is Err,
        },
{
    let rows = old(store)@.media;
    crate::table::lemma_extended(
        rows,
        seq![server@, host@, path@],
        seq![key@, iv@, hashes@],
        seq![server@, host@, path@],
    );
}

} // verus!
