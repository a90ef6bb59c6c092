//! What the crypto machine wants sent to the homeserver, and what comes back.

use vstd::prelude::*;
use crate::client::PanClient;
use crate::ids::{is_event_id, is_user_id};
use crate::json::Json;
use crate::text::insert_in_order;
use crate::wire::{text_bytes, text_header, upstream_url, Header, UpstreamRequest};

verus! {

/// A request of the crypto machine.
#[derive(Debug)]
pub enum OutgoingRequest {
    KeysUpload { device_keys: Json, one_time_keys: Json, fallback_keys: Json },
    KeysQuery { device_keys: Json },
    KeysClaim { one_time_keys: Json },
    ToDevice { event_type: String, txn_id: String, messages: Json },
    SignatureUpload { signed_keys: Json },
    RoomMessage { room_id: String, event_type: String, txn_id: String, content: Json },
}

/// What the crypto machine is told of the reply to a request.
#[derive(Debug)]
pub enum Reply {
    KeysUpload { one_time_key_counts: Option<Json> },
    KeysQuery {
        device_keys: Option<Json>,
        master_keys: Option<Json>,
        self_signing_keys: Option<Json>,
        user_signing_keys: Option<Json>,
    },
    KeysClaim { one_time_keys: Option<Json> },
    ToDevice,
    SignatureUpload,
    RoomMessage { event_id: String },
}

/// What is wrong with a reply.
#[derive(Debug, Clone, Copy, PartialEq, Eq, Structural)]
pub enum ReplyError {
    NotJson,
}

/// What the crypto machine is told of a reply.
#[verifier::ext_equal]
pub enum ReplyView {
    KeysUpload { one_time_key_counts: Option<crate::json::JsonView> },
    KeysQuery {
        device_keys: Option<crate::json::JsonView>,
        master_keys: Option<crate::json::JsonView>,
        self_signing_keys: Option<crate::json::JsonView>,
        user_signing_keys: Option<crate::json::JsonView>,
    },
    KeysClaim { one_time_keys: Option<crate::json::JsonView> },
    ToDevice,
    SignatureUpload,
    RoomMessage { event_id: Seq<char> },
}

impl View for Reply {
    type V = ReplyView;

    open spec fn view(&self) -> ReplyView {
        match *self {
            Reply::KeysUpload { one_time_key_counts } => ReplyView::KeysUpload {
                one_time_key_counts: crate::client::sync::optional_json(one_time_key_counts),
            },
            Reply::KeysQuery {
                device_keys,
                master_keys,
                self_signing_keys,
                user_signing_keys,
            } => ReplyView::KeysQuery {
                device_keys: crate::client::sync::optional_json(device_keys),
                master_keys: crate::client::sync::optional_json(master_keys),
                self_signing_keys: crate::client::sync::optional_json(self_signing_keys),
                user_signing_keys: crate::client::sync::optional_json(user_signing_keys),
            },
            Reply::KeysClaim { one_time_keys } => ReplyView::KeysClaim {
                one_time_keys: crate::client::sync::optional_json(one_time_keys),
            },
            Reply::ToDevice => ReplyView::ToDevice,
            Reply::SignatureUpload => ReplyView::SignatureUpload,
            Reply::RoomMessage { event_id } => ReplyView::RoomMessage { event_id: event_id@ },
        }
    }
}

/// The method of a request.
pub open spec fn request_method(r: OutgoingRequest) -> Seq<char> {
    match r {
        OutgoingRequest::ToDevice { .. } => "PUT"@,
        OutgoingRequest::RoomMessage { .. } => "PUT"@,
        _ => "POST"@,
    }
}

/// The target of a request.
pub open spec fn request_target(r: OutgoingRequest) -> Seq<char> {
    match r {
        OutgoingRequest::KeysUpload { .. } => "/_matrix/client/v3/keys/upload"@,
        OutgoingRequest::KeysQuery { .. } => "/_matrix/client/v3/keys/query"@,
        OutgoingRequest::KeysClaim { .. } => "/_matrix/client/v3/keys/claim"@,
        OutgoingRequest::ToDevice { event_type, txn_id, .. } => "/_matrix/client/v3/sendToDevice/"@
            + event_type@ + "/"@ + txn_id@,
        OutgoingRequest::SignatureUpload { .. } => "/_matrix/client/v3/keys/signatures/upload"@,
        OutgoingRequest::RoomMessage { room_id, event_type, txn_id, .. } => {
            "/_matrix/client/v3/rooms/"@ + room_id@ + "/send/"@ + event_type@ + "/"@ + txn_id@
        },
    }
}

/// The object with one field.
pub open spec fn object1(key: Seq<char>, value: crate::json::JsonView) -> crate::json::JsonView {
    crate::json::JsonView::Object(Map::empty().insert(key, value))
}

/// The body of a request.
pub open spec fn request_body(r: OutgoingRequest) -> crate::json::JsonView {
    match r {
        OutgoingRequest::KeysUpload { device_keys, one_time_keys, fallback_keys } => {
            crate::json::with_field(
                crate::json::with_field(
                    object1("device_keys"@, device_keys@),
                    "one_time_keys"@,
                    one_time_keys@,
                ),
                "fallback_keys"@,
                fallback_keys@,
            )
        },
        OutgoingRequest::KeysQuery { device_keys } => object1("device_keys"@, device_keys@),
        OutgoingRequest::KeysClaim { one_time_keys } => object1("one_time_keys"@, one_time_keys@),
        OutgoingRequest::ToDevice { messages, .. } => object1("messages"@, messages@),
        OutgoingRequest::SignatureUpload { signed_keys } => signed_keys@,
        OutgoingRequest::RoomMessage { content, .. } => content@,
    }
}

/// The header with an access token.
pub open spec fn bearer(token: Seq<char>) -> crate::wire::HeaderView {
    ("authorization"@, vstd::utf8::encode_utf8("Bearer "@ + token))
}

/// The header of a JSON body.
pub open spec fn json_content() -> crate::wire::HeaderView {
    ("content-type"@, vstd::utf8::encode_utf8("application/json"@))
}

/// The request of a session for something on the homeserver.
pub open spec fn session_get(c: crate::client::ClientView, target: Seq<char>) -> crate::wire::UpstreamView {
    crate::wire::UpstreamView {
        method: "GET"@,
        url: crate::wire::base_of(c.server.homeserver) + target,
        headers: seq![bearer(c.access_token)],
        body: None,
    }
}

/// The request to the homeserver that a request of the crypto machine becomes.
pub open spec fn sent_request(c: crate::client::ClientView, r: OutgoingRequest) -> crate::wire::UpstreamView {
    crate::wire::UpstreamView {
        method: request_method(r),
        url: crate::wire::base_of(c.server.homeserver) + request_target(r),
        headers: seq![bearer(c.access_token), json_content()],
        body: Some(vstd::utf8::encode_utf8(crate::json::encoded(request_body(r)))),
    }
}

/// The identifier in the reply to a message, or a stand-in where there is none.
pub open spec fn event_id_of(reply: crate::json::JsonView) -> Seq<char> {
    match crate::json::text_field(reply, "event_id"@) {
        Some(id) => if crate::ids::event_id_valid(id) {
            id
        } else {
            "$placeholder:placeholder.invalid"@
        },
        None => "$placeholder:placeholder.invalid"@,
    }
}

/// What the crypto machine is told of the JSON of a reply.
pub open spec fn reply_in(r: OutgoingRequest, json: crate::json::JsonView) -> ReplyView {
    match r {
        OutgoingRequest::ToDevice { .. } => ReplyView::ToDevice,
        OutgoingRequest::SignatureUpload { .. } => ReplyView::SignatureUpload,
        OutgoingRequest::KeysUpload { .. } => ReplyView::KeysUpload {
            one_time_key_counts: crate::json::field(json, "one_time_key_counts"@),
        },
        OutgoingRequest::KeysQuery { .. } => ReplyView::KeysQuery {
            device_keys: crate::json::field(json, "device_keys"@),
            master_keys: crate::json::field(json, "master_keys"@),
            self_signing_keys: crate::json::field(json, "self_signing_keys"@),
            user_signing_keys: crate::json::field(json, "user_signing_keys"@),
        },
        OutgoingRequest::KeysClaim { .. } => ReplyView::KeysClaim {
            one_time_keys: crate::json::field(json, "one_time_keys"@),
        },
        OutgoingRequest::RoomMessage { .. } => ReplyView::RoomMessage {
            event_id: event_id_of(json),
        },
    }
}

/// Whether nothing in the reply to a request matters.
pub open spec fn reply_ignored(r: OutgoingRequest) -> bool {
    r is ToDevice || r is SignatureUpload
}

/// What the crypto machine is told of the body of a reply.
pub open spec fn reply_of(r: OutgoingRequest, body: Seq<u8>) -> Result<ReplyView, ReplyError> {
    match crate::json::decoded(body) {
        Some(json) => Ok(reply_in(r, json)),
        None => if reply_ignored(r) {
            Ok(reply_in(r, crate::json::JsonView::Null))
        } else {
            Err(ReplyError::NotJson)
        },
    }
}

/// The header with an access token.
fn bearer_header(token: &str) -> (r: Header)
    ensures
        r@ == bearer(token@),
{
    let value = "Bearer ".to_owned().concat(token);
    text_header("authorization", value.as_str())
}

/// The body of a request.
fn body_of(r: OutgoingRequest) -> (b: Json)
    ensures
        b@ == request_body(r),
{
    match r {
        OutgoingRequest::KeysUpload { device_keys, one_time_keys, fallback_keys } => {
            let mut b = Json::object();
            b.set("device_keys", device_keys);
            b.set("one_time_keys", one_time_keys);
            b.set("fallback_keys", fallback_keys);
            b
        },
        OutgoingRequest::KeysQuery { device_keys } => {
            let mut b = Json::object();
            b.set("device_keys", device_keys);
            b
        },
        OutgoingRequest::KeysClaim { one_time_keys } => {
            let mut b = Json::object();
            b.set("one_time_keys", one_time_keys);
            b
        },
        OutgoingRequest::ToDevice { messages, .. } => {
            let mut b = Json::object();
            b.set("messages", messages);
            b
        },
        OutgoingRequest::SignatureUpload { signed_keys } => signed_keys,
        OutgoingRequest::RoomMessage { content, .. } => content,
    }
}

/// The target of a request.
fn target_of(r: &OutgoingRequest) -> (t: String)
    ensures
        t@ == request_target(*r),
{
    match r {
        OutgoingRequest::KeysUpload { .. } => "/_matrix/client/v3/keys/upload".to_owned(),
        OutgoingRequest::KeysQuery { .. } => "/_matrix/client/v3/keys/query".to_owned(),
        OutgoingRequest::KeysClaim { .. } => "/_matrix/client/v3/keys/claim".to_owned(),
        OutgoingRequest::ToDevice { event_type, txn_id, .. } => {
            "/_matrix/client/v3/sendToDevice/".to_owned().concat(event_type.as_str()).concat(
                "/",
            ).concat(txn_id.as_str())
        },
        OutgoingRequest::SignatureUpload { .. } => {
            "/_matrix/client/v3/keys/signatures/upload".to_owned()
        },
        OutgoingRequest::RoomMessage { room_id, event_type, txn_id, .. } => {
            "/_matrix/client/v3/rooms/".to_owned().concat(room_id.as_str()).concat(
                "/send/",
            ).concat(event_type.as_str()).concat("/").concat(txn_id.as_str())
        },
    }
}

/// The field of an object, taken out.
fn take_field(json: &Json, key: &str) -> (r: Option<Json>)
    ensures
        crate::client::sync::optional_json(r) == crate::json::field(json@, key@),
{
    match json.get(key) {
        Some(v) => Some(v.copy()),
        None => None,
    }
}

/// The identifier in the reply to a message, or a stand-in where there is none.
fn read_event_id(reply: &Json) -> (r: String)
    ensures
        r@ == event_id_of(reply@),
{
    match reply.get_text("event_id") {
        Some(id) => if is_event_id(id) {
            id.to_owned()
        } else {
            "$placeholder:placeholder.invalid".to_owned()
        },
        None => "$placeholder:placeholder.invalid".to_owned(),
    }
}

/// What the crypto machine is told of the JSON of a reply.
pub fn reply_from(r: &OutgoingRequest, json: &Json) -> (reply: Reply)
    ensures
        reply@ == reply_in(*r, json@),
{
    match r {
        OutgoingRequest::ToDevice { .. } => Reply::ToDevice,
        OutgoingRequest::SignatureUpload { .. } => Reply::SignatureUpload,
        OutgoingRequest::KeysUpload { .. } => Reply::KeysUpload {
            one_time_key_counts: take_field(json, "one_time_key_counts"),
        },
        OutgoingRequest::KeysQuery { .. } => Reply::KeysQuery {
            device_keys: take_field(json, "device_keys"),
            master_keys: take_field(json, "master_keys"),
            self_signing_keys: take_field(json, "self_signing_keys"),
            user_signing_keys: take_field(json, "user_signing_keys"),
        },
        OutgoingRequest::KeysClaim { .. } => Reply::KeysClaim {
            one_time_keys: take_field(json, "one_time_keys"),
        },
        OutgoingRequest::RoomMessage { .. } => Reply::RoomMessage {
            event_id: read_event_id(json),
        },
    }
}

/// What the crypto machine is told of the body of a reply.
pub fn read_reply(r: &OutgoingRequest, body: &Vec<u8>) -> (reply: Result<Reply, ReplyError>)
    ensures
        match reply {
            Ok(v) => reply_of(*r, body@) == Ok::<ReplyView, ReplyError>(v@),
            Err(e) => reply_of(*r, body@) == Err::<ReplyView, ReplyError>(e),
        },
{
    match r {
        OutgoingRequest::ToDevice { .. } => {
            return Ok(Reply::ToDevice);
        },
        OutgoingRequest::SignatureUpload { .. } => {
            return Ok(Reply::SignatureUpload);
        },
        _ => {},
    }
    match Json::parse(body.as_slice()) {
        Some(json) => Ok(reply_from(r, &json)),
        None => Err(ReplyError::NotJson),
    }
}

/// What an answer about the members of a room has of those who have joined.
pub open spec fn joined_of(answer: crate::json::JsonView) -> Option<crate::json::JsonView> {
    crate::json::part(answer, "joined"@, 0, 1)
}

/// What the body of an answer about the members of a room has of those who have joined.
pub open spec fn joined_in(body: Seq<u8>) -> Option<crate::json::JsonView> {
    match crate::json::decoded(body) {
        Some(answer) => joined_of(answer),
        None => None,
    }
}

/// Whether all keys are user identifiers.
pub open spec fn all_users(j: crate::json::JsonView) -> bool {
    forall|k: Seq<char>| #[trigger]
        crate::json::field(j, k) is Some ==> crate::ids::user_id_valid(k)
}

/// Whether all keys are user identifiers of the plain kind.
pub open spec fn all_plain_users(j: crate::json::JsonView) -> bool {
    forall|k: Seq<char>| #[trigger]
        crate::json::field(j, k) is Some ==> crate::ids::plain_user_id(k)
}

/// Whether a list holds the keys of an object, in order and each once.
pub open spec fn lists_keys(list: Seq<String>, j: crate::json::JsonView) -> bool {
    &&& crate::text::in_order(list)
    &&& forall|k: Seq<char>| #[trigger]
        crate::json::field(j, k) is Some <==> crate::text::listed(list, k)
}

/// Whether `members` is what comes of reading who has joined a room: the keys of an object
/// that are all user identifiers.
pub open spec fn right_members(
    joined: Option<crate::json::JsonView>,
    members: Option<Vec<String>>,
) -> bool {
    &&& members is Some <==> (joined matches Some(j) && j is Object && all_users(j))
    &&& (joined matches Some(j) && j is Object && all_plain_users(j)) ==> members is Some
    &&& members matches Some(m) ==> lists_keys(m@, joined.unwrap())
}

/// The users who have joined a room, as an answer states them.
pub fn members_of(answer: &Json) -> (r: Option<Vec<String>>)
    ensures
        right_members(joined_of(answer@), r),
{
    let joined = match answer.part("joined", 0, 1) {
        Some(j) => j,
        None => {
            return None;
        },
    };
    match joined {
        Json::Object(_) => {},
        _ => {
            return None;
        },
    }
    let keys = joined.keys();
    let mut members: Vec<String> = Vec::new();
    let mut i: usize = 0;
    while i < keys.len()
        invariant
            i <= keys@.len(),
            joined_of(answer@) == Some(joined@),
            joined@ is Object,
            forall|k: Seq<char>| #![trigger crate::json::field(joined@, k)]
                crate::json::field(joined@, k) is Some <==> exists|i: int|
                    0 <= i < keys@.len() && keys@[i]@ == k,
            crate::text::in_order(members@),
            forall|k: Seq<char>| #[trigger]
                crate::text::listed(members@, k) <==> exists|j: int|
                    0 <= j < i && (#[trigger] keys@[j])@ == k,
            forall|j: int|
                0 <= j < i ==> crate::ids::user_id_valid((#[trigger] keys@[j])@),
        decreases keys@.len() - i,
    {
        let key = keys[i].as_str();
        assert(crate::json::field(joined@, keys@[i as int]@) is Some);
        if !is_user_id(key) {
            return None;
        }
        let ghost start = members@;
        insert_in_order(&mut members, key);
        assert forall|k: Seq<char>| #[trigger]
            crate::text::listed(members@, k) <==> exists|j: int|
                0 <= j < i + 1 && (#[trigger] keys@[j])@ == k by {
            assert(crate::text::listed(members@, k) <==> crate::text::listed(start, k) || k
                == keys@[i as int]@);
            if crate::text::listed(start, k) {
                let j = choose|j: int| 0 <= j < i && (#[trigger] keys@[j])@ == k;
                assert(keys@[j]@ == k);
            }
        }
        i = i + 1;
    }
    Some(members)
}

/// The users who have joined a room, as the body of an answer states them.
pub fn members_in(body: &Vec<u8>) -> (r: Option<Vec<String>>)
    ensures
        right_members(joined_in(body@), r),
{
    match Json::parse(body.as_slice()) {
        Some(answer) => members_of(&answer),
        None => None,
    }
}

/// The type under which the default key to the secrets of a user is stored, as the body of an
/// answer names that key.
pub open spec fn default_key_in(body: Seq<u8>) -> Option<Seq<char>> {
    match crate::json::said(body, "key"@, 0, 1) {
        Some(id) => Some("m.secret_storage.key."@ + id),
        None => None,
    }
}

/// The type under which the default key to the secrets of a user is stored, as the body of an
/// answer names that key.
pub fn default_key_type(body: &Vec<u8>) -> (r: Option<String>)
    ensures
        crate::client::sync::optional_text(r) == default_key_in(body@),
{
    match Json::text_in(body.as_slice(), "key", 0, 1) {
        Some(id) => Some("m.secret_storage.key.".to_owned().concat(id.as_str())),
        None => None,
    }
}

impl PanClient {
    /// The request to the homeserver that a request of the crypto machine becomes.
    pub fn outgoing_request(&self, r: OutgoingRequest) -> (u: UpstreamRequest)
        ensures
            u@ == sent_request(self@, r),
            u@.body matches Some(b) && crate::json::reads_as(b, request_body(r)),
    {
        let method = match &r {
            OutgoingRequest::ToDevice { .. } => "PUT",
            OutgoingRequest::RoomMessage { .. } => "PUT",
            _ => "POST",
        };
        let target = target_of(&r);
        let text = body_of(r).write();
        let mut headers: Vec<Header> = Vec::new();
        headers.push(bearer_header(self.token()));
        headers.push(text_header("content-type", "application/json"));
        let u = UpstreamRequest {
            method: method.to_owned(),
            url: upstream_url(self.homeserver(), target.as_str()),
            headers,
            body: Some(text_bytes(text.as_str())),
        };
        assert(u@.headers =~= seq![bearer(self@.access_token), json_content()]);
        u
    }

    /// The request of the session for something on the homeserver.
    fn get_request(&self, target: &str) -> (u: UpstreamRequest)
        ensures
            u@ == session_get(self@, target@),
    {
        let mut headers: Vec<Header> = Vec::new();
        headers.push(bearer_header(self.token()));
        let u = UpstreamRequest {
            method: "GET".to_owned(),
            url: upstream_url(self.homeserver(), target),
            headers,
            body: None,
        };
        assert(u@.headers =~= seq![bearer(self@.access_token)]);
        u
    }

    /// The request for the members of a room.
    pub fn members_request(&self, room_id: &str) -> (u: UpstreamRequest)
        ensures
            u@ == session_get(
                self@,
                "/_matrix/client/v3/rooms/"@ + room_id@ + "/joined_members"@,
            ),
    {
        let target = "/_matrix/client/v3/rooms/".to_owned().concat(room_id).concat(
            "/joined_members",
        );
        self.get_request(target.as_str())
    }

    /// The request for what the user has stored under a type on the homeserver.
    pub fn account_data_request(&self, kind: &str) -> (u: UpstreamRequest)
        ensures
            u@ == session_get(
                self@,
                "/_matrix/client/v3/user/"@ + self@.user_id + "/account_data/"@ + kind@,
            ),
    {
        let target = "/_matrix/client/v3/user/".to_owned().concat(self.user()).concat(
            "/account_data/",
        ).concat(kind);
        self.get_request(target.as_str())
    }

    /// The request for whether a room is encrypted.
    pub fn encryption_request(&self, room_id: &str) -> (u: UpstreamRequest)
        ensures
            u@ == session_get(
                self@,
                "/_matrix/client/v3/rooms/"@ + room_id@ + "/state/m.room.encryption"@,
            ),
    {
        let target = "/_matrix/client/v3/rooms/".to_owned().concat(room_id).concat(
            "/state/m.room.encryption",
        );
        self.get_request(target.as_str())
    }
}

} // verus!
