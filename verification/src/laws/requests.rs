//! Laws of what is sent to the homeserver for the crypto machine, and of what comes back.

use vstd::prelude::*;
use crate::client::requests::{
    default_key_type, members_in, members_of, read_reply, reply_from, OutgoingRequest, Reply,
    ReplyError,
};
use crate::client::PanClient;
use crate::json::{Json, JsonView};
use crate::wire::UpstreamRequest;

verus! {

/// Whether a tree is an object with exactly the given keys, each with its value.
pub open spec fn is_object_of(tree: JsonView, entries: Seq<(Seq<char>, JsonView)>) -> bool {
    &&& tree matches JsonView::Object(m)
    &&& forall|k: Seq<char>| #[trigger]
        m.contains_key(k) <==> exists|i: int| 0 <= i < entries.len() && (#[trigger] entries[i]).0 == k
    &&& forall|i: int| 0 <= i < entries.len() ==> m[(#[trigger] entries[i]).0] == entries[i].1
}

/// Whether a request carries an object with exactly the given keys, wherever that object is
/// one that is read back.
pub open spec fn carries(u: UpstreamRequest, entries: Seq<(Seq<char>, JsonView)>) -> bool {
    &&& u.body matches Some(b)
    &&& exists|tree: JsonView|
        is_object_of(tree, entries) && #[trigger] crate::json::reads_as(b@, tree)
}

/// Whether a request goes to a target on the homeserver of a session, with its token, as JSON.
pub open spec fn goes_to(
    u: UpstreamRequest,
    c: crate::client::ClientView,
    method: Seq<char>,
    target: Seq<char>,
) -> bool {
    &&& u.method@ == method
    &&& u.url@ == crate::text::strip_end(c.server.homeserver, '/') + target
    &&& u.headers@.len() == 2
    &&& u.headers@[0].name@ == "authorization"@
    &&& u.headers@[0].value@ == vstd::utf8::encode_utf8("Bearer "@ + c.access_token)
    &&& u.headers@[1].name@ == "content-type"@
    &&& u.headers@[1].value@ == vstd::utf8::encode_utf8("application/json"@)
}

/// Where a request goes.
proof fn lemma_goes(c: PanClient, r: OutgoingRequest, u: UpstreamRequest)
    requires
        call_ensures(PanClient::outgoing_request, (&c, r), u),
    ensures
        goes_to(
            u,
            c@,
            crate::client::requests::request_method(r),
            crate::client::requests::request_target(r),
        ),
{
    let views = crate::wire::header_views(u.headers@);
    assert(views.len() == u.headers@.len());
    assert(views[0] == u.headers@[0]@ && views[1] == u.headers@[1]@);
}

/// Keys to be published are posted as they are: those of the device, the one-time keys and the
/// keys to fall back on, each under its own name, and nothing else.
pub proof fn keys_are_uploaded(
    c: PanClient,
    device_keys: crate::json::Json,
    one_time_keys: crate::json::Json,
    fallback_keys: crate::json::Json,
    u: UpstreamRequest,
)
    requires
        call_ensures(
            PanClient::outgoing_request,
            (&c, OutgoingRequest::KeysUpload { device_keys, one_time_keys, fallback_keys }),
            u,
        ),
    ensures
        goes_to(u, c@, "POST"@, "/_matrix/client/v3/keys/upload"@),
        carries(
            u,
            seq![
                ("device_keys"@, device_keys@),
                ("one_time_keys"@, one_time_keys@),
                ("fallback_keys"@, fallback_keys@),
            ],
        ),
{
    let r = OutgoingRequest::KeysUpload { device_keys, one_time_keys, fallback_keys };
    lemma_goes(c, r, u);
    let tree = crate::client::requests::request_body(r);
    let entries = seq![
        ("device_keys"@, device_keys@),
        ("one_time_keys"@, one_time_keys@),
        ("fallback_keys"@, fallback_keys@),
    ];
    reveal_strlit("device_keys");
    reveal_strlit("one_time_keys");
    reveal_strlit("fallback_keys");
    assert("device_keys"@[0] == 'd' && "one_time_keys"@[0] == 'o' && "fallback_keys"@[0] == 'f');
    assert(entries[0].0 == "device_keys"@ && entries[1].0 == "one_time_keys"@ && entries[2].0
        == "fallback_keys"@);
    assert(is_object_of(tree, entries));
    assert(crate::json::reads_as(u.body.unwrap()@, tree));
}

/// The devices of users are asked for under `device_keys`, and under nothing else.
pub proof fn devices_are_asked_for(
    c: PanClient,
    device_keys: crate::json::Json,
    u: UpstreamRequest,
)
    requires
        call_ensures(
            PanClient::outgoing_request,
            (&c, OutgoingRequest::KeysQuery { device_keys }),
            u,
        ),
    ensures
        goes_to(u, c@, "POST"@, "/_matrix/client/v3/keys/query"@),
        carries(u, seq![("device_keys"@, device_keys@)]),
{
    let r = OutgoingRequest::KeysQuery { device_keys };
    lemma_goes(c, r, u);
    let entries = seq![("device_keys"@, device_keys@)];
    assert(entries[0].0 == "device_keys"@);
    assert(is_object_of(crate::client::requests::request_body(r), entries));
}

/// One-time keys are claimed under `one_time_keys`, and under nothing else.
pub proof fn keys_are_claimed(
    c: PanClient,
    one_time_keys: crate::json::Json,
    u: UpstreamRequest,
)
    requires
        call_ensures(
            PanClient::outgoing_request,
            (&c, OutgoingRequest::KeysClaim { one_time_keys }),
            u,
        ),
    ensures
        goes_to(u, c@, "POST"@, "/_matrix/client/v3/keys/claim"@),
        carries(u, seq![("one_time_keys"@, one_time_keys@)]),
{
    let r = OutgoingRequest::KeysClaim { one_time_keys };
    lemma_goes(c, r, u);
    let entries = seq![("one_time_keys"@, one_time_keys@)];
    assert(entries[0].0 == "one_time_keys"@);
    assert(is_object_of(crate::client::requests::request_body(r), entries));
}

/// Messages to devices are put under their type and their transaction, as `messages`.
pub proof fn messages_to_devices_are_sent(
    c: PanClient,
    event_type: String,
    txn_id: String,
    messages: crate::json::Json,
    u: UpstreamRequest,
)
    requires
        call_ensures(
            PanClient::outgoing_request,
            (&c, OutgoingRequest::ToDevice { event_type, txn_id, messages }),
            u,
        ),
    ensures
        goes_to(
            u,
            c@,
            "PUT"@,
            "/_matrix/client/v3/sendToDevice/"@ + event_type@ + "/"@ + txn_id@,
        ),
        carries(u, seq![("messages"@, messages@)]),
{
    let r = OutgoingRequest::ToDevice { event_type, txn_id, messages };
    lemma_goes(c, r, u);
    let entries = seq![("messages"@, messages@)];
    assert(entries[0].0 == "messages"@);
    assert(is_object_of(crate::client::requests::request_body(r), entries));
}

/// Signatures are posted as they are, and a message to a room is put to it under its type and
/// its transaction.
pub proof fn signatures_and_room_messages_are_sent(
    c: PanClient,
    r: OutgoingRequest,
    u: UpstreamRequest,
)
    requires
        call_ensures(PanClient::outgoing_request, (&c, r), u),
    ensures
        r matches OutgoingRequest::SignatureUpload { signed_keys } ==> {
            &&& goes_to(u, c@, "POST"@, "/_matrix/client/v3/keys/signatures/upload"@)
            &&& u.body matches Some(b)
            &&& crate::json::reads_as(b@, signed_keys@)
        },
        r matches OutgoingRequest::RoomMessage { room_id, event_type, txn_id, content } ==> {
            &&& goes_to(
                u,
                c@,
                "PUT"@,
                "/_matrix/client/v3/rooms/"@ + room_id@ + "/send/"@ + event_type@ + "/"@ + txn_id@,
            )
            &&& u.body matches Some(b)
            &&& crate::json::reads_as(b@, content@)
        },
{
    lemma_goes(c, r, u);
}

/// Whether an optional value is what stands under a key of a tree.
pub open spec fn is_field(v: Option<crate::json::Json>, tree: JsonView, key: Seq<char>) -> bool {
    match crate::laws::syncs::under(Some(tree), key) {
        Some(t) => v matches Some(j) && j@ == t,
        None => v is None,
    }
}

/// The crypto machine is told of a reply what stands under the names of its parts; of replies
/// in which nothing matters it is told that they came; and a reply of the others that is no
/// JSON is refused.
pub proof fn replies_are_told(
    r: OutgoingRequest,
    body: Vec<u8>,
    reply: Result<Reply, ReplyError>,
)
    requires
        call_ensures(read_reply, (&r, &body), reply),
    ensures
        r is ToDevice ==> reply matches Ok(Reply::ToDevice),
        r is SignatureUpload ==> reply matches Ok(Reply::SignatureUpload),
        !(r is ToDevice) && !(r is SignatureUpload) && crate::json::decoded(body@) is None
            ==> reply is Err,
        r is KeysUpload ==> (crate::json::decoded(body@) matches Some(tree) ==> {
            &&& reply matches Ok(Reply::KeysUpload { one_time_key_counts })
            &&& is_field(one_time_key_counts, tree, "one_time_key_counts"@)
        }),
        r is KeysQuery ==> (crate::json::decoded(body@) matches Some(tree) ==> {
            &&& reply matches Ok(
                Reply::KeysQuery { device_keys, master_keys, self_signing_keys, user_signing_keys },
            )
            &&& is_field(device_keys, tree, "device_keys"@)
            &&& is_field(master_keys, tree, "master_keys"@)
            &&& is_field(self_signing_keys, tree, "self_signing_keys"@)
            &&& is_field(user_signing_keys, tree, "user_signing_keys"@)
        }),
        r is KeysClaim ==> (crate::json::decoded(body@) matches Some(tree) ==> {
            &&& reply matches Ok(Reply::KeysClaim { one_time_keys })
            &&& is_field(one_time_keys, tree, "one_time_keys"@)
        }),
        r is RoomMessage ==> (crate::json::decoded(body@) matches Some(tree) ==> {
            &&& reply matches Ok(Reply::RoomMessage { event_id })
            &&& match crate::laws::syncs::under(Some(tree), "event_id"@) {
                Some(JsonView::Text(id)) if crate::ids::event_id_valid(id) => event_id@ == id,
                _ => event_id@ == "$placeholder:placeholder.invalid"@,
            }
        }),
{
}

/// What a session asks the homeserver for goes to it with the token of the session: who is in
/// a room, whether it is encrypted, and what the user has stored.
pub proof fn questions_of_sessions(
    c: PanClient,
    room: &str,
    kind: &str,
    members: UpstreamRequest,
    encryption: UpstreamRequest,
    stored: UpstreamRequest,
)
    requires
        call_ensures(PanClient::members_request, (&c, room), members),
        call_ensures(PanClient::encryption_request, (&c, room), encryption),
        call_ensures(PanClient::account_data_request, (&c, kind), stored),
    ensures
        crate::laws::sending::asks(
            members@,
            c@,
            "/_matrix/client/v3/rooms/"@ + room@ + "/joined_members"@,
        ),
        crate::laws::sending::asks(
            encryption@,
            c@,
            "/_matrix/client/v3/rooms/"@ + room@ + "/state/m.room.encryption"@,
        ),
        crate::laws::sending::asks(
            stored@,
            c@,
            "/_matrix/client/v3/user/"@ + c@.user_id + "/account_data/"@ + kind@,
        ),
{
}

/// The members that are read out of an answer are those who have joined, in order and each
/// once; there are some where `joined` is an object of users, and none where a key of it is
/// no user.
pub proof fn members_are_read(body: Vec<u8>, r: Option<Vec<String>>, user: Seq<char>)
    requires
        call_ensures(members_in, (&body,), r),
    ensures
        r matches Some(m) ==> {
            &&& crate::laws::sending::holds_joined(m@, body@)
            &&& forall|i: int, j: int|
                0 <= i < j < m@.len() ==> crate::text::before(
                    (#[trigger] m@[i])@,
                    (#[trigger] m@[j])@,
                )
        },
        crate::json::decoded(body@) matches Some(JsonView::Object(fields)) ==> {
            let joined = crate::laws::syncs::under(
                Some(JsonView::Object(fields)),
                "joined"@,
            );
            match joined {
                Some(JsonView::Object(users)) => {
                    &&& users.contains_key(user) && !crate::ids::user_id_valid(user) ==> r is None
                    &&& (forall|k: Seq<char>| #[trigger]
                        users.contains_key(k) ==> crate::ids::plain_user_id(k)) ==> r is Some
                },
                _ => r is None,
            }
        },
        crate::json::decoded(body@) is None ==> r is None,
{
    let joined = crate::client::requests::joined_in(body@);
    if let Some(j) = joined {
        if let JsonView::Object(users) = j {
            if users.contains_key(user) {
                assert(crate::json::field(j, user) is Some);
            }
            if forall|k: Seq<char>| #[trigger]
                users.contains_key(k) ==> crate::ids::plain_user_id(k) {
                assert forall|k: Seq<char>| #[trigger]
                    crate::json::field(j, k) is Some implies crate::ids::plain_user_id(k) by {
                    assert(users.contains_key(k));
                }
                assert(crate::client::requests::all_plain_users(j));
            }
        }
    }
    if let Some(m) = r {
        let users = joined.unwrap()->Object_0;
        assert forall|k: Seq<char>| #[trigger]
            users.contains_key(k) <==> exists|i: int|
                0 <= i < m@.len() && (#[trigger] m@[i])@ == k by {
            assert(crate::json::field(joined.unwrap(), k) is Some <==> crate::text::listed(m@, k));
        }
        assert(crate::laws::sending::holds_keys(m@, users));
    }
}

/// The default key to the secrets of a user is stored under its own type.
pub proof fn default_key_is_named(body: Vec<u8>, r: Option<String>, id: Seq<char>)
    requires
        call_ensures(default_key_type, (&body,), r),
    ensures
        crate::json::decoded(body@) matches Some(JsonView::Object(fields)) ==> {
            let named = crate::laws::syncs::under(Some(JsonView::Object(fields)), "key"@);
            named == Some(JsonView::Text(id)) <==> (r matches Some(kind) && kind@
                == "m.secret_storage.key."@ + id)
        },
{
    if let Some(kind) = r {
        let said = crate::json::said(body@, "key"@, 0, 1).unwrap();
        if kind@ == "m.secret_storage.key."@ + id {
            let n = "m.secret_storage.key."@.len() as int;
            assert(("m.secret_storage.key."@ + id).skip(n) =~= id);
            assert(("m.secret_storage.key."@ + said).skip(n) =~= said);
        }
    }
}

/// What is told of a reply that was read as JSON is what is told of its text.
pub proof fn replies_are_told_alike(
    r: OutgoingRequest,
    body: Vec<u8>,
    json: Json,
    reply: Result<Reply, ReplyError>,
    told: Reply,
)
    requires
        call_ensures(read_reply, (&r, &body), reply),
        call_ensures(reply_from, (&r, &json), told),
        crate::json::decoded(body@) == Some(json@),
    ensures
        reply matches Ok(k) && k@ == told@,
{
}

/// The members that are read out of an answer are those that are read out of its text.
pub proof fn members_are_read_alike(
    body: Vec<u8>,
    answer: Json,
    of_text: Option<Vec<String>>,
    of_answer: Option<Vec<String>>,
    user: Seq<char>,
)
    requires
        call_ensures(members_in, (&body,), of_text),
        call_ensures(members_of, (&answer,), of_answer),
        crate::json::decoded(body@) == Some(answer@),
    ensures
        of_text is Some <==> of_answer is Some,
        of_text matches Some(a) ==> (crate::text::listed(a@, user) <==> crate::text::listed(
            of_answer.unwrap()@,
            user,
        )),
{
    if of_text is Some {
        let joined = crate::client::requests::joined_of(answer@).unwrap();
        assert(crate::json::field(joined, user) is Some <==> crate::text::listed(
            of_text.unwrap()@,
            user,
        ));
        assert(crate::json::field(joined, user) is Some <==> crate::text::listed(
            of_answer.unwrap()@,
            user,
        ));
    }
}

} // verus!
