//! Laws of messages on their way to a room.

use vstd::prelude::*;
use crate::client::devices::{blocking_devices, DeviceFacts, Trust};
use crate::client::PanClient;
use crate::error::AppError;
use crate::json::{Json, JsonView};
use crate::messages::{DaemonToUi, UiToDaemon};
use crate::proxy::daemon::ProxyDaemon;
use crate::proxy::send::{
    decision_of, encrypted_send, plain_send, send_message, send_resolved, Decision, SendAction,
    SendEvent, SendPlan, SendStart, Sending, Stage,
};
use crate::store::PanStore;
use crate::wire::{ClientRequest, UpstreamRequest};

verus! {

/// One step of a message: what happened, and what came of it.
pub struct SendStep {
    pub store: PanStore,
    pub event: SendEvent,
    pub after: Sending,
    pub action: SendAction,
}

/// Whether a step is one that `Sending::step` takes for some session.
pub open spec fn taken(before: Sending, body: Vec<u8>, step: SendStep) -> bool {
    exists|client: &mut PanClient| #[trigger]
        call_ensures(
            Sending::step,
            (before, client, &step.store, &body, step.event),
            (step.after, step.action),
        )
}

/// Where a message stands before a step.
pub open spec fn standing(start: Sending, steps: Seq<SendStep>, i: int) -> Sending {
    if i == 0 {
        start
    } else {
        steps[i - 1].after
    }
}

/// Whether a list of steps takes a message on from where it starts.
pub open spec fn run_of(start: Sending, body: Vec<u8>, steps: Seq<SendStep>) -> bool {
    &&& start.stage is Fresh
    &&& forall|i: int|
        0 <= i < steps.len() ==> taken(#[trigger] standing(start, steps, i), body, steps[i])
}

/// Whether a list holds exactly those who have joined a room, according to an answer of the
/// homeserver: the keys of its object `joined`.
pub open spec fn holds_joined(members: Seq<String>, answer: Seq<u8>) -> bool {
    match crate::json::decoded(answer) {
        Some(JsonView::Object(fields)) => {
            &&& fields.contains_key("joined"@)
            &&& fields["joined"@] matches JsonView::Object(users)
            &&& holds_keys(members, users)
        },
        Some(JsonView::Array(parts)) => {
            &&& parts.len() == 1
            &&& parts[0] matches JsonView::Object(users)
            &&& holds_keys(members, users)
        },
        _ => false,
    }
}

/// Whether a list holds exactly the keys of a map.
pub open spec fn holds_keys(list: Seq<String>, m: Map<Seq<char>, JsonView>) -> bool {
    forall|k: Seq<char>| #[trigger]
        m.contains_key(k) <==> exists|i: int| 0 <= i < list.len() && (#[trigger] list[i])@ == k
}

/// Whether a content is that of the body of a message: the JSON of the body, but that a `file`
/// may stand in place of a `url` that is an address of a medium.
pub open spec fn content_of(content: JsonView, body: Seq<u8>) -> bool {
    &&& crate::json::decoded(body) matches Some(plain)
    &&& content == plain || {
        &&& crate::json::text_field(plain, "url"@) matches Some(url)
        &&& "mxc://"@.is_prefix_of(url)
        &&& content is Object
        &&& crate::json::field(content, "url"@) is None
        &&& crate::json::field(content, "file"@) matches Some(file)
        &&& crate::json::field(file, "url"@) == Some(JsonView::Text(url))
        &&& forall|k: Seq<char>|
            k != "url"@ && k != "file"@ ==> #[trigger] crate::json::field(content, k)
                == crate::json::field(plain, k)
    }
}

/// Whether two lists hold the same texts in the same order.
pub open spec fn same_texts(a: Seq<String>, b: Seq<String>) -> bool {
    a.len() == b.len() && forall|i: int| 0 <= i < a.len() ==> (#[trigger] a[i])@ == b[i]@
}

/// Whether two lists hold the same pairs of texts in the same order.
pub open spec fn same_pairs(a: Seq<(String, String)>, b: Seq<(String, String)>) -> bool {
    a.len() == b.len() && forall|i: int|
        0 <= i < a.len() ==> (#[trigger] a[i]).0@ == b[i].0@ && a[i].1@ == b[i].1@
}

/// Whether a device holds a message of a user up: it is that of somebody else, nothing was
/// decided about it, and it is not cross-signed.
pub open spec fn undecided(d: DeviceFacts, user: Seq<char>) -> bool {
    d.user_id@ != user && d.trust == Trust::Unset && !d.cross_signed
}

/// What is known of the stage of a message after some steps.
spec fn known_of(stage: Stage, body: Seq<u8>, steps: Seq<SendStep>) -> bool {
    match stage {
        Stage::Fresh => steps.len() == 0,
        Stage::AskedRoom => no_members(steps),
        Stage::AskedMembers { content } => no_members(steps) && content_of(content@, body),
        Stage::AskedDevices { content, members } => members_known(members@, steps) && content_of(
            content@,
            body,
        ),
        Stage::Waiting { content, members, .. } => members_known(members@, steps) && content_of(
            content@,
            body,
        ),
        _ => true,
    }
}

/// Whether the homeserver has not said yet who is in the room.
spec fn no_members(steps: Seq<SendStep>) -> bool {
    forall|k: int| 0 <= k < steps.len() ==> (#[trigger] steps[k]).event !is Members
}

/// Whether a list holds those who are in the room, as the homeserver has said.
pub open spec fn members_known(members: Seq<String>, steps: Seq<SendStep>) -> bool {
    &&& exists|k: int| 0 <= k < steps.len() && (#[trigger] steps[k]).event is Members
    &&& forall|k: int|
        0 <= k < steps.len() && (#[trigger] steps[k]).event is Members ==> (
        steps[k].event matches SendEvent::Members(Some(answer)) && holds_joined(members, answer@))
}

/// What a step that was taken means.
proof fn lemma_taken(before: Sending, body: Vec<u8>, step: SendStep) -> (c: crate::client::ClientView)
    requires
        taken(before, body, step),
    ensures
        step.after.room_id@ == before.room_id@,
        step.after.event_type@ == before.event_type@,
        crate::proxy::send::right_next(
            c,
            step.store@,
            before.room_id@,
            body@,
            before.stage,
            step.event,
            step.after.stage,
            step.action,
        ),
{
    let client = choose|client: &mut PanClient| #[trigger]
        call_ensures(
            Sending::step,
            (before, client, &step.store, &body, step.event),
            (step.after, step.action),
        );
    (*client)@
}

/// A content with the keys of its media is still that of the body.
proof fn lemma_content(
    c: crate::client::ClientView,
    s: crate::store::StoreView,
    room: Seq<char>,
    body: Seq<u8>,
)
    ensures
        crate::proxy::send::prepared(c, s, room, body) matches Some(content) ==> content_of(
            content,
            body,
        ),
{
    reveal_strlit("url");
    reveal_strlit("file");
    assert("url"@.len() == 3 && "file"@.len() == 4);
}

/// Lists of the same texts hold the same members.
proof fn lemma_same_members(a: Seq<String>, b: Seq<String>, steps: Seq<SendStep>)
    requires
        crate::proxy::send::member_views(a) == crate::proxy::send::member_views(b),
        members_known(a, steps),
    ensures
        same_texts(a, b),
        members_known(b, steps),
{
    let va = crate::proxy::send::member_views(a);
    let vb = crate::proxy::send::member_views(b);
    assert(va.len() == a.len() && vb.len() == b.len());
    assert forall|i: int| 0 <= i < a.len() implies (#[trigger] a[i])@ == b[i]@ by {
        assert(va[i] == a[i]@ && vb[i] == b[i]@);
    }
    assert forall|m: Map<Seq<char>, JsonView>| holds_keys(a, m) implies #[trigger] holds_keys(
        b,
        m,
    ) by {
        assert forall|k: Seq<char>| #[trigger]
            m.contains_key(k) <==> exists|i: int| 0 <= i < b.len() && (#[trigger] b[i])@ == k by {
            if m.contains_key(k) {
                let i = choose|i: int| 0 <= i < a.len() && (#[trigger] a[i])@ == k;
                assert(b[i]@ == k);
            }
            if exists|i: int| 0 <= i < b.len() && (#[trigger] b[i])@ == k {
                let i = choose|i: int| 0 <= i < b.len() && (#[trigger] b[i])@ == k;
                assert(a[i]@ == k);
            }
        }
    }
}

/// What is known of a message stays known with each step, and is known when encrypting
/// begins.
proof fn lemma_known(
    before: Sending,
    body: Vec<u8>,
    earlier: Seq<SendStep>,
    step: SendStep,
)
    requires
        taken(before, body, step),
        known_of(before.stage, body@, earlier),
    ensures
        known_of(step.after.stage, body@, earlier.push(step)),
        step.action matches SendAction::Encrypt { content, members, .. } ==> {
            &&& members_known(members@, earlier.push(step))
            &&& content_of(content@, body@)
        },
{
    let c = lemma_taken(before, body, step);
    let steps = earlier.push(step);
    let room = before.room_id@;
    lemma_content(c, step.store@, room, body@);
    lemma_content(crate::proxy::send::marked(c, room), step.store@, room, body@);
    assert(forall|k: int| 0 <= k < earlier.len() ==> (#[trigger] steps[k]) == earlier[k]);
    assert(steps[earlier.len() as int] == step);
    match before.stage {
        Stage::Fresh => {
            if step.event is Begin {
                assert(no_members(steps));
            }
        },
        Stage::AskedRoom => {
            if step.event is RoomAnswered {
                assert(no_members(steps));
            }
        },
        Stage::AskedMembers { content } => {
            if let SendEvent::Members(answer) = step.event {
                match crate::proxy::send::joined_users(answer) {
                    Some(users) => {
                        let members = match step.action {
                            SendAction::Encrypt { members, .. } => members@,
                            _ => step.after.stage->AskedDevices_members@,
                        };
                        assert(crate::client::requests::lists_keys(members, users));
                        let m = users->Object_0;
                        assert forall|k: Seq<char>| #[trigger]
                            m.contains_key(k) <==> exists|i: int|
                                0 <= i < members.len() && (#[trigger] members[i])@ == k by {
                            assert(crate::json::field(users, k) is Some
                                <==> crate::text::listed(members, k));
                        }
                        assert(holds_keys(members, m));
                        assert(holds_joined(members, answer.unwrap()@));
                        assert(members_known(members, steps));
                    },
                    None => {},
                }
            }
        },
        Stage::AskedDevices { content, members } => {
            if step.event is Devices {
                let kept = match step.action {
                    SendAction::Encrypt { members: m, .. } => m@,
                    _ => step.after.stage->Waiting_members@,
                };
                assert(members_known(members@, steps)) by {
                    let k = choose|k: int|
                        0 <= k < earlier.len() && (#[trigger] earlier[k]).event is Members;
                    assert(steps[k].event is Members);
                }
                lemma_same_members(members@, kept, steps);
            }
        },
        Stage::Waiting { content, members, .. } => {
            if step.event is Decided {
                assert(members_known(members@, steps)) by {
                    let k = choose|k: int|
                        0 <= k < earlier.len() && (#[trigger] earlier[k]).event is Members;
                    assert(steps[k].event is Members);
                }
                if let SendAction::Encrypt { members: m, .. } = step.action {
                    lemma_same_members(members@, m@, steps);
                }
            }
        },
        _ => {},
    }
}

/// What is known of a message after any number of its steps.
proof fn lemma_run(start: Sending, body: Vec<u8>, steps: Seq<SendStep>, n: int)
    requires
        run_of(start, body, steps),
        0 <= n <= steps.len(),
    ensures
        known_of(standing(start, steps, n).stage, body@, steps.take(n)),
    decreases n,
{
    if n > 0 {
        lemma_run(start, body, steps, n - 1);
        assert(taken(standing(start, steps, n - 1), body, steps[n - 1]));
        lemma_known(standing(start, steps, n - 1), body, steps.take(n - 1), steps[n - 1]);
        assert(steps.take(n - 1).push(steps[n - 1]) =~= steps.take(n));
    }
}

/// Whenever encrypting begins for a message, on whichever path, it begins for exactly those
/// who have joined the room, as the homeserver has said for this message, and for the content
/// of its body.
pub proof fn encrypted_for_all_joined(
    start: Sending,
    body: Vec<u8>,
    steps: Seq<SendStep>,
    n: int,
)
    requires
        run_of(start, body, steps),
        0 <= n < steps.len(),
    ensures
        steps[n].action matches SendAction::Encrypt { content, members, .. } ==> {
            &&& members_known(members@, steps.take(n + 1))
            &&& content_of(content@, body@)
        },
{
    lemma_run(start, body, steps, n);
    assert(taken(standing(start, steps, n), body, steps[n]));
    lemma_known(standing(start, steps, n), body, steps.take(n), steps[n]);
    assert(steps.take(n).push(steps[n]) =~= steps.take(n + 1));
}

/// The devices that hold a message up are those that are undecided, each as often as it is
/// listed.
proof fn lemma_blocking(user: Seq<char>, devices: Seq<DeviceFacts>, u: Seq<char>, d: Seq<char>)
    ensures
        crate::client::devices::blocking(
            user,
            crate::client::devices::device_views(devices),
        ).contains((u, d)) <==> exists|i: int|
            0 <= i < devices.len() && undecided(#[trigger] devices[i], user)
                && devices[i].user_id@ == u && devices[i].device_id@ == d,
        crate::client::devices::blocking(
            user,
            crate::client::devices::device_views(devices),
        ).len() == 0 <==> forall|i: int|
            0 <= i < devices.len() ==> !undecided(#[trigger] devices[i], user),
    decreases devices.len(),
{
    let views = crate::client::devices::device_views(devices);
    let all = crate::client::devices::blocking(user, views);
    if devices.len() > 0 {
        let less = devices.drop_last();
        lemma_blocking(user, less, u, d);
        assert(views.drop_last() =~= crate::client::devices::device_views(less));
        let before = crate::client::devices::blocking(user, views.drop_last());
        let last = devices[devices.len() - 1];
        assert(views.last() == last@);
        if undecided(last, user) {
            assert(all == before.push((last.user_id@, last.device_id@)));
            assert(all[all.len() - 1] == (last.user_id@, last.device_id@));
            if before.contains((u, d)) {
                let k = choose|k: int| 0 <= k < before.len() && before[k] == (u, d);
                assert(all[k] == (u, d));
            }
            if all.contains((u, d)) {
                let k = choose|k: int| 0 <= k < all.len() && all[k] == (u, d);
                if k < before.len() {
                    assert(before[k] == (u, d));
                }
            }
        }
        if before.contains((u, d)) {
            let i = choose|i: int|
                0 <= i < less.len() && undecided(#[trigger] less[i], user) && less[i].user_id@ == u
                    && less[i].device_id@ == d;
            assert(undecided(devices[i], user) && devices[i] == less[i]);
        }
        if exists|i: int|
            0 <= i < devices.len() && undecided(#[trigger] devices[i], user)
                && devices[i].user_id@ == u && devices[i].device_id@ == d {
            let i = choose|i: int|
                0 <= i < devices.len() && undecided(#[trigger] devices[i], user)
                    && devices[i].user_id@ == u && devices[i].device_id@ == d;
            if i < less.len() {
                assert(undecided(less[i], user));
            }
        }
        if forall|i: int| 0 <= i < devices.len() ==> !undecided(#[trigger] devices[i], user) {
            assert forall|i: int| 0 <= i < less.len() implies !undecided(
                #[trigger] less[i],
                user,
            ) by {
                assert(less[i] == devices[i]);
            }
            assert(!undecided(devices[devices.len() - 1], user));
        }
        if forall|i: int| 0 <= i < less.len() ==> !undecided(#[trigger] less[i], user) {
            if !undecided(last, user) {
                assert forall|i: int| 0 <= i < devices.len() implies !undecided(
                    #[trigger] devices[i],
                    user,
                ) by {
                    if i < less.len() {
                        assert(less[i] == devices[i]);
                    }
                }
            }
        }
    }
}

/// Equal pairs of texts.
proof fn lemma_same_pairs(a: Seq<(String, String)>, b: Seq<(String, String)>)
    requires
        crate::messages::pair_views(a) == crate::messages::pair_views(b),
    ensures
        same_pairs(a, b),
{
    let va = crate::messages::pair_views(a);
    let vb = crate::messages::pair_views(b);
    assert(va.len() == a.len() && vb.len() == b.len());
    assert forall|i: int| 0 <= i < a.len() implies (#[trigger] a[i]).0@ == b[i].0@ && a[i].1@
        == b[i].1@ by {
        assert(va[i] == (a[i].0@, a[i].1@) && vb[i] == (b[i].0@, b[i].1@));
    }
}

/// Equal texts.
proof fn lemma_same_texts(a: Seq<String>, b: Seq<String>)
    requires
        crate::proxy::send::member_views(a) == crate::proxy::send::member_views(b),
    ensures
        same_texts(a, b),
{
    let va = crate::proxy::send::member_views(a);
    let vb = crate::proxy::send::member_views(b);
    assert(va.len() == a.len() && vb.len() == b.len());
    assert forall|i: int| 0 <= i < a.len() implies (#[trigger] a[i])@ == b[i]@ by {
        assert(va[i] == a[i]@ && vb[i] == b[i]@);
    }
}

/// Whether a list of users and devices has a device of a user.
pub open spec fn pair_listed(list: Seq<(String, String)>, u: Seq<char>, d: Seq<char>) -> bool {
    exists|k: int| 0 <= k < list.len() && (#[trigger] list[k]).0@ == u && list[k].1@ == d
}

/// Whether a list of devices has an undecided device of another user.
pub open spec fn undecided_listed(
    devices: Seq<DeviceFacts>,
    user: Seq<char>,
    u: Seq<char>,
    d: Seq<char>,
) -> bool {
    exists|i: int|
        0 <= i < devices.len() && undecided(#[trigger] devices[i], user) && devices[i].user_id@
            == u && devices[i].device_id@ == d
}

/// Whether a list of users and devices holds exactly the undecided devices of others.
pub open spec fn holds_undecided(
    list: Seq<(String, String)>,
    devices: Seq<DeviceFacts>,
    user: Seq<char>,
) -> bool {
    forall|u: Seq<char>, d: Seq<char>| #[trigger]
        pair_listed(list, u, d) <==> undecided_listed(devices, user, u, d)
}

/// A message waits where a device of another user is undecided: its own user is asked about
/// the room, and the message keeps its content, its members and these devices. Where none is
/// undecided it is encrypted at once, with no device ignored.
pub proof fn undecided_devices_are_asked_about(
    sending: Sending,
    client: &mut PanClient,
    store: PanStore,
    body: Vec<u8>,
    devices: Vec<DeviceFacts>,
    r: (Sending, SendAction),
)
    requires
        sending.stage is AskedDevices,
        call_ensures(
            Sending::step,
            (sending, client, &store, &body, SendEvent::Devices(devices)),
            r,
        ),
    ensures
        ({
            let content = sending.stage->AskedDevices_content;
            let members = sending.stage->AskedDevices_members;
            let user = old(client)@.user_id;
            if exists|i: int|
                0 <= i < devices@.len() && undecided(#[trigger] devices@[i], user) {
                &&& r.0.stage matches Stage::Waiting { content: c, members: m, blocking: b }
                &&& c@ == content@
                &&& same_texts(m@, members@)
                &&& holds_undecided(b@, devices@, user)
                &&& r.1 matches SendAction::AskUser(
                    DaemonToUi::UnverifiedDevices { pan_user, room_id, .. },
                )
                &&& pan_user@ == user
                &&& room_id@ == sending.room_id@
            } else {
                &&& r.1 matches SendAction::Encrypt { content: c, members: m, ignore }
                &&& c@ == content@
                &&& same_texts(m@, members@)
                &&& ignore@.len() == 0
            }
        }),
{
    let user = old(client)@.user_id;
    let views = crate::client::devices::device_views(devices@);
    let blocking = crate::client::devices::blocking(user, views);
    let members = sending.stage->AskedDevices_members;
    lemma_blocking(user, devices@, Seq::empty(), Seq::empty());
    match r.1 {
        SendAction::Encrypt { members: m, ignore, .. } => {
            lemma_same_texts(m@, members@);
            assert(crate::messages::pair_views(ignore@).len() == ignore@.len());
        },
        SendAction::AskUser(_) => {
            let m = r.0.stage->Waiting_members;
            let b = r.0.stage->Waiting_blocking;
            lemma_same_texts(m@, members@);
            let pairs = crate::messages::pair_views(b@);
            assert forall|u: Seq<char>, d: Seq<char>| #[trigger]
                pair_listed(b@, u, d) <==> undecided_listed(devices@, user, u, d) by {
                lemma_blocking(user, devices@, u, d);
                if pair_listed(b@, u, d) {
                    let k = choose|k: int|
                        0 <= k < b@.len() && (#[trigger] b@[k]).0@ == u && b@[k].1@ == d;
                    assert(pairs[k] == (u, d));
                }
                if pairs.contains((u, d)) {
                    let k = choose|k: int| 0 <= k < pairs.len() && pairs[k] == (u, d);
                    assert(b@[k].0@ == u && b@[k].1@ == d);
                }
            }
        },
        _ => {},
    }
}

/// The decision of its user about a message that waits is carried out: to be sent anyway, it
/// is encrypted with its content, for its members, ignoring the devices that held it up; else
/// it is refused, and the client is told why.
pub proof fn decisions_are_carried_out(
    sending: Sending,
    client: &mut PanClient,
    store: PanStore,
    body: Vec<u8>,
    decision: Decision,
    r: (Sending, SendAction),
)
    requires
        sending.stage is Waiting,
        call_ensures(
            Sending::step,
            (sending, client, &store, &body, SendEvent::Decided(decision)),
            r,
        ),
    ensures
        decision == Decision::SendAnyways ==> {
            &&& r.1 matches SendAction::Encrypt { content, members, ignore }
            &&& content@ == sending.stage->Waiting_content@
            &&& same_texts(members@, sending.stage->Waiting_members@)
            &&& same_pairs(ignore@, sending.stage->Waiting_blocking@)
        },
        decision == Decision::Cancel ==> (r.1 matches SendAction::Refuse(AppError::Internal(why))
            && why@ == "sending was cancelled: the room has unverified devices"@),
        decision == Decision::Timeout ==> (r.1 matches SendAction::Refuse(AppError::Internal(why))
            && why@ == "sending was not confirmed in time: the room has unverified devices"@),
        final(client)@ == old(client)@,
{
    if let SendAction::Encrypt { members, ignore, .. } = r.1 {
        lemma_same_texts(members@, sending.stage->Waiting_members@);
        lemma_same_pairs(ignore@, sending.stage->Waiting_blocking@);
    }
}

/// What the crypto machine makes of a message is what is sent; where it makes nothing of it,
/// the message is sent as it came.
pub proof fn encrypted_content_is_sent(
    sending: Sending,
    client: &mut PanClient,
    store: PanStore,
    body: Vec<u8>,
    result: Option<crate::json::Json>,
    r: (Sending, SendAction),
)
    requires
        sending.stage is Encrypting,
        call_ensures(
            Sending::step,
            (sending, client, &store, &body, SendEvent::Encrypted(result)),
            r,
        ),
    ensures
        result matches Some(j) ==> (r.1 matches SendAction::SendEncrypted(e) && e@ == j@),
        result is None ==> r.1 is SendPlain,
{
}

/// Whether a message may leave as it came although its room is encrypted: its body is no
/// JSON, the room is none, or it names a medium.
pub open spec fn may_stay_plain(room: Seq<char>, body: Seq<u8>) -> bool {
    ||| crate::json::decoded(body) is None
    ||| !crate::ids::room_id_valid(room)
    ||| crate::json::text_field(crate::json::decoded(body).unwrap(), "url"@) is Some
}

/// A message to a room that its session knows to be encrypted is not sent as it came, unless
/// its body is no JSON, the room is none, or the records of its media are damaged. A room that
/// the session does not know of is asked about, at the homeserver, with the token of the
/// session.
pub proof fn encrypted_rooms_are_not_sent_to_plainly(
    sending: Sending,
    client: &mut PanClient,
    store: PanStore,
    body: Vec<u8>,
    r: (Sending, SendAction),
)
    requires
        sending.stage is Fresh,
        call_ensures(Sending::step, (sending, client, &store, &body, SendEvent::Begin), r),
    ensures
        old(client)@.encrypted_rooms.contains(sending.room_id@) ==> {
            ||| r.1 matches SendAction::AskMembers(u) && asks(
                u@,
                old(client)@,
                "/_matrix/client/v3/rooms/"@ + sending.room_id@ + "/joined_members"@,
            )
            ||| r.1 is SendPlain && may_stay_plain(sending.room_id@, body@)
        },
        !old(client)@.encrypted_rooms.contains(sending.room_id@) ==> (
        r.1 matches SendAction::AskRoom(u) && asks(
            u@,
            old(client)@,
            "/_matrix/client/v3/rooms/"@ + sending.room_id@ + "/state/m.room.encryption"@,
        )),
        final(client)@ == old(client)@,
{
}

/// Whether a request asks the homeserver of a session for something, with its token and
/// nothing else.
pub open spec fn asks(
    u: crate::wire::UpstreamView,
    c: crate::client::ClientView,
    target: Seq<char>,
) -> bool {
    &&& u.method == "GET"@
    &&& u.url == crate::text::strip_end(c.server.homeserver, '/') + target
    &&& u.headers == seq![
        ("authorization"@, vstd::utf8::encode_utf8("Bearer "@ + c.access_token)),
    ]
    &&& u.body is None
}

/// The homeserver decides whether a room that the session does not know of is encrypted: where
/// it answers with success, the room is noted as encrypted, and no other, and the members are
/// asked for; else the message is sent as it came and nothing is noted.
pub proof fn homeserver_decides_about_rooms(
    sending: Sending,
    client: &mut PanClient,
    store: PanStore,
    body: Vec<u8>,
    status: Option<u16>,
    r: (Sending, SendAction),
    room: Seq<char>,
)
    requires
        sending.stage is AskedRoom,
        call_ensures(
            Sending::step,
            (sending, client, &store, &body, SendEvent::RoomAnswered(status)),
            r,
        ),
    ensures
        (status matches Some(s) && 200 <= s < 300) ==> {
            &&& final(client)@.encrypted_rooms.contains(room) <==> room == sending.room_id@
                || old(client)@.encrypted_rooms.contains(room)
            &&& r.1 matches SendAction::AskMembers(u) ==> asks(
                u@,
                old(client)@,
                "/_matrix/client/v3/rooms/"@ + sending.room_id@ + "/joined_members"@,
            )
            &&& r.1 is AskMembers || r.1 is SendPlain
            &&& r.1 is SendPlain ==> may_stay_plain(sending.room_id@, body@)
        },
        !(status matches Some(s) && 200 <= s < 300) ==> {
            &&& r.1 is SendPlain
            &&& final(client)@ == old(client)@
        },
{
}

/// Unless verification is ignored, the devices of all who have joined are asked for before
/// anything is encrypted; where they cannot be told, the message is sent as it came.
pub proof fn devices_of_the_joined_are_asked_for(
    sending: Sending,
    client: &mut PanClient,
    store: PanStore,
    body: Vec<u8>,
    answer: Option<Vec<u8>>,
    r: (Sending, SendAction),
)
    requires
        sending.stage is AskedMembers,
        call_ensures(
            Sending::step,
            (sending, client, &store, &body, SendEvent::Members(answer)),
            r,
        ),
    ensures
        answer is None ==> r.1 is SendPlain,
        r.1 is Encrypt ==> old(client)@.server.ignore_verification,
        r.1 matches SendAction::ListDevices(list) ==> {
            &&& !old(client)@.server.ignore_verification
            &&& answer matches Some(a)
            &&& holds_joined(list@, a@)
            &&& r.0.stage matches Stage::AskedDevices { content, members }
            &&& content@ == sending.stage->AskedMembers_content@
            &&& same_texts(members@, list@)
        },
        r.1 matches SendAction::Encrypt { content, members, ignore } ==> {
            &&& answer matches Some(a)
            &&& holds_joined(members@, a@)
            &&& content@ == sending.stage->AskedMembers_content@
            &&& ignore@.len() == 0
        },
        r.1 is ListDevices || r.1 is Encrypt || r.1 is SendPlain,
        final(client)@ == old(client)@,
{
    if let SendAction::Encrypt { members, ignore, .. } = r.1 {
        assert(crate::messages::pair_views(ignore@).len() == ignore@.len());
        lemma_holds(members@, answer);
    }
    if let SendAction::ListDevices(list) = r.1 {
        let m = r.0.stage->AskedDevices_members;
        lemma_same_texts(m@, list@);
        lemma_holds(m@, answer);
        let step = SendStep {
            store,
            event: SendEvent::Members(answer),
            after: r.0,
            action: r.1,
        };
        let steps = seq![step];
        assert(steps[0].event is Members);
        lemma_same_members(m@, list@, steps);
    }
}

/// A list of the keys that an answer states holds those who have joined.
proof fn lemma_holds(members: Seq<String>, answer: Option<Vec<u8>>)
    requires
        crate::proxy::send::joined_users(answer) matches Some(users)
            && crate::client::requests::lists_keys(members, users),
    ensures
        answer matches Some(a) && holds_joined(members, a@),
{
    let users = crate::proxy::send::joined_users(answer).unwrap();
    let m = users->Object_0;
    assert forall|k: Seq<char>| #[trigger]
        m.contains_key(k) <==> exists|i: int|
            0 <= i < members.len() && (#[trigger] members[i])@ == k by {
        assert(crate::json::field(users, k) is Some <==> crate::text::listed(members, k));
    }
}

/// An encrypted message is put to the same room under the same transaction and with the same
/// query, as an encrypted one; its body is the encrypted content, and its headers those of the
/// client that go up, without the length of the body that it had.
pub proof fn encrypted_messages_go_to_their_room(
    daemon: ProxyDaemon,
    req: ClientRequest,
    encrypted: crate::json::Json,
    head: Seq<char>,
    event_type: Seq<char>,
    txn: Seq<char>,
    r: UpstreamRequest,
)
    requires
        call_ensures(encrypted_send, (&daemon, &req, encrypted), r),
        !event_type.contains('/'),
        !txn.contains('/'),
        req.path@ == head.push('/') + event_type.push('/') + txn,
    ensures
        r.method@ == "PUT"@,
        req.query is None ==> r.url@ == crate::text::strip_end(
            daemon@.server.homeserver,
            '/',
        ) + (head.push('/') + "m.room.encrypted"@.push('/') + txn),
        req.query matches Some(q) ==> r.url@ == crate::text::strip_end(
            daemon@.server.homeserver,
            '/',
        ) + (head.push('/') + "m.room.encrypted"@.push('/') + txn) + ("?"@ + q@),
        crate::wire::header_views(r.headers@) == crate::laws::wire::going_up(
            crate::wire::header_views(req.headers@),
            true,
        ),
        r.body matches Some(b) && crate::json::reads_as(b@, encrypted@),
{
    crate::proxy::send::type_gives_way(daemon@, req, encrypted@, head, event_type, txn);
    crate::laws::wire::lemma_going_up(crate::wire::header_views(req.headers@), true);
    reveal_strlit("");
    let base = crate::text::strip_end(daemon@.server.homeserver, '/');
    let path = head.push('/') + "m.room.encrypted"@.push('/') + txn;
    assert(base + path + ""@ =~= base + path);
}

/// A message that is not encrypted leaves as it came: put to the same target, with the same
/// body.
pub proof fn plain_messages_leave_as_they_came(
    daemon: ProxyDaemon,
    req: ClientRequest,
    r: UpstreamRequest,
)
    requires
        call_ensures(plain_send, (&daemon, &req), r),
    ensures
        r.method@ == "PUT"@,
        req.target matches Some(t) ==> r.url@ == crate::text::strip_end(
            daemon@.server.homeserver,
            '/',
        ) + t@,
        crate::wire::header_views(r.headers@) == crate::laws::wire::going_up(
            crate::wire::header_views(req.headers@),
            false,
        ),
        r.body matches Some(b) && b@ == req.body@,
{
    crate::laws::wire::lemma_going_up(crate::wire::header_views(req.headers@), false);
}

/// A message leaves as it came, without any stage, exactly where its request has no token, or
/// the token belongs to no session.
pub proof fn messages_of_sessions_are_taken_on(
    daemon: ProxyDaemon,
    req: ClientRequest,
    token: Option<String>,
    plan: SendPlan,
    session: Option<String>,
    begun: SendStart,
)
    requires
        call_ensures(crate::proxy::routes::extract_token, (&req,), token),
        call_ensures(send_message, (&daemon, &req), plan),
        call_ensures(send_resolved, (&daemon, &req, session), begun),
    ensures
        match plan {
            SendPlan::Plain(u) => token is None && u@.body == Some(req.body@) && u@.method == "PUT"@,
            SendPlan::Session { token: t } => token matches Some(given) && given@ == t@,
        },
        match begun {
            SendStart::Plain(u) => session is None && u@.body == Some(req.body@) && u@.method
                == "PUT"@,
            SendStart::Session { user_id } => session matches Some(s) && s@ == user_id@,
        },
{
}

/// A message is decided about by the commands of its own user about its own room alone: to
/// send it anyway, or to cancel it. Nothing else decides about it.
pub proof fn own_commands_decide(
    cmd: UiToDaemon,
    user: &str,
    room: &str,
    r: Option<Decision>,
)
    requires
        call_ensures(decision_of, (&cmd, user, room), r),
    ensures
        r == Some(Decision::SendAnyways) <==> (cmd matches UiToDaemon::SendAnyways {
            pan_user,
            room_id,
            ..
        } && pan_user@ == user@ && room_id@ == room@),
        r == Some(Decision::Cancel) <==> (cmd matches UiToDaemon::CancelSending {
            pan_user,
            room_id,
            ..
        } && pan_user@ == user@ && room_id@ == room@),
        r != Some(Decision::Timeout),
{
}

/// The devices that hold up a message are listed in their order: those of others that nothing
/// was decided about, each with its user.
pub proof fn undecided_devices_hold_up(
    user: &str,
    devices: Vec<DeviceFacts>,
    r: Vec<(String, String)>,
)
    requires
        call_ensures(blocking_devices, (user, &devices), r),
    ensures
        r@.map_values(|p: (String, String)| (p.0@, p.1@)) == devices@.filter(
            |d: DeviceFacts| undecided(d, user@),
        ).map_values(|d: DeviceFacts| (d.user_id@, d.device_id@)),
{
    lemma_holding(user@, devices@);
}

/// The devices that hold up a message, in their order.
proof fn lemma_holding(user: Seq<char>, devices: Seq<DeviceFacts>)
    ensures
        crate::client::devices::blocking(user, crate::client::devices::device_views(devices))
            == devices.filter(|d: DeviceFacts| undecided(d, user)).map_values(
            |d: DeviceFacts| (d.user_id@, d.device_id@),
        ),
    decreases devices.len(),
{
    reveal(Seq::filter);
    let keep = |d: DeviceFacts| undecided(d, user);
    let pair = |d: DeviceFacts| (d.user_id@, d.device_id@);
    let views = crate::client::devices::device_views(devices);
    if devices.len() > 0 {
        let less = devices.drop_last();
        lemma_holding(user, less);
        assert(views.drop_last() =~= crate::client::devices::device_views(less));
        let last = devices.last();
        assert(views.last() == last@);
        let kept = less.filter(keep);
        if undecided(last, user) {
            assert(devices.filter(keep) =~= kept.push(last));
            assert(kept.push(last).map_values(pair) =~= kept.map_values(pair).push(pair(last)));
        } else {
            assert(devices.filter(keep) =~= kept);
        }
    } else {
        assert(crate::client::devices::blocking(user, views) =~= devices.filter(keep).map_values(
            pair,
        ));
    }
}

/// The content of a message to an encrypted room is taken on with the keys of its media, and
/// the homeserver is asked who is in the room; where the keys cannot be read, or the room can
/// be none, the message leaves as it came.
pub proof fn contents_are_prepared(
    client: PanClient,
    store: PanStore,
    room: &str,
    content: Json,
    r: (Stage, SendAction),
    keyed: &mut Json,
    keys: Result<(), crate::store::StoreError>,
)
    requires
        call_ensures(Sending::prepare_content, (&client, &store, room, content), r),
        call_ensures(PanClient::inject_media_keys, (&client, &store, room, keyed), keys),
        old(keyed)@ == content@,
    ensures
        ({
            let can = keys is Ok && room@.len() > 0 && room@[0] == '!' && !room@.contains('\0');
            &&& can ==> {
                &&& r.0 matches Stage::AskedMembers { content: kept }
                &&& kept@ == final(keyed)@
                &&& r.1 matches SendAction::AskMembers(u)
                &&& asks(
                    u@,
                    client@,
                    "/_matrix/client/v3/rooms/"@ + room@ + "/joined_members"@,
                )
            }
            &&& !can ==> r.0 is Finished && r.1 is SendPlain
        }),
{
}

/// Whether an event is the one that a message waits for.
pub open spec fn in_turn(stage: Stage, event: SendEvent) -> bool {
    match stage {
        Stage::Fresh => event is Begin,
        Stage::AskedRoom => event is RoomAnswered,
        Stage::AskedMembers { .. } => event is Members,
        Stage::AskedDevices { .. } => event is Devices,
        Stage::Waiting { .. } => event is Decided,
        Stage::Encrypting => event is Encrypted,
        Stage::Finished => false,
    }
}

/// What comes out of turn ends a message: nothing of it leaves, and the client learns that it
/// was interrupted. The session learns nothing from it.
pub proof fn messages_are_interrupted(
    sending: Sending,
    client: &mut PanClient,
    store: PanStore,
    body: Vec<u8>,
    event: SendEvent,
    r: (Sending, SendAction),
)
    requires
        call_ensures(Sending::step, (sending, client, &store, &body, event), r),
        !in_turn(sending.stage, event),
    ensures
        r.0.stage is Finished,
        r.1 matches SendAction::Refuse(AppError::Internal(t)) && t@ == "sending was interrupted"@,
        final(client)@ == old(client)@,
{
}

/// A message waits for what was asked for, and is done where nothing was: how far it has come
/// shows in what is done about it. It stays the message to its room, of its type.
pub proof fn messages_wait_for_answers(
    sending: Sending,
    client: &mut PanClient,
    store: PanStore,
    body: Vec<u8>,
    event: SendEvent,
    r: (Sending, SendAction),
)
    requires
        call_ensures(Sending::step, (sending, client, &store, &body, event), r),
    ensures
        r.0.stage is AskedRoom <==> r.1 is AskRoom,
        r.0.stage is AskedMembers <==> r.1 is AskMembers,
        r.0.stage is AskedDevices <==> r.1 is ListDevices,
        r.0.stage is Waiting <==> r.1 is AskUser,
        r.0.stage is Encrypting <==> r.1 is Encrypt,
        r.0.stage is Finished <==> r.1 is SendPlain || r.1 is SendEncrypted || r.1 is Refuse,
        !(r.0.stage is Fresh),
        r.0.room_id@ == sending.room_id@,
        r.0.event_type@ == sending.event_type@,
{
}

/// A message begins with nothing asked for, for its room and of its type.
pub proof fn messages_begin(room: String, kind: String, r: Sending)
    requires
        call_ensures(Sending::new, (room, kind), r),
    ensures
        r.stage is Fresh,
        r.room_id@ == room@,
        r.event_type@ == kind@,
{
}

} // verus!
