//! Laws of the room keys that other devices ask for.

use vstd::prelude::*;
use crate::client::keys::{key_message, withheld_content, KeyWish, WishView};
use crate::client::requests::OutgoingRequest;
use crate::client::{ClientView, PanClient};
use crate::json::{Json, JsonView};
use crate::messages::DaemonToUi;

verus! {

/// Whether an event is about a request for keys: what it does, who made the request, and
/// under which identifier.
pub open spec fn about_keys(
    event: JsonView,
    action: Seq<char>,
    user: Seq<char>,
    device: Seq<char>,
    request: Seq<char>,
) -> bool {
    let content = crate::laws::syncs::under(Some(event), "content"@);
    &&& crate::laws::syncs::typed(event, "m.room_key_request"@)
    &&& crate::laws::syncs::under(Some(event), "sender"@) == Some(JsonView::Text(user))
    &&& crate::ids::user_id_valid(user)
    &&& crate::laws::syncs::under(content, "action"@) == Some(JsonView::Text(action))
    &&& crate::laws::syncs::under(content, "requesting_device_id"@) == Some(JsonView::Text(device))
    &&& crate::laws::syncs::under(content, "request_id"@) == Some(JsonView::Text(request))
}

/// Whether an event asks for the keys of a session in a room.
pub open spec fn asks_for_session(event: JsonView, room: Seq<char>, session: Seq<char>) -> bool {
    let body = crate::laws::syncs::under(crate::laws::syncs::under(Some(event), "content"@), "body"@);
    &&& crate::laws::syncs::under(body, "room_id"@) == Some(JsonView::Text(room))
    &&& crate::laws::syncs::under(body, "session_id"@) == Some(JsonView::Text(session))
}

/// Whether an event makes a request for keys.
pub open spec fn makes(event: JsonView, w: WishView) -> bool {
    &&& about_keys(event, "request"@, w.user_id, w.device_id, w.request_id)
    &&& asks_for_session(event, w.room_id, w.session_id)
}

/// Whether a request waits already.
pub open spec fn waits_already(wishes: Seq<WishView>, w: WishView) -> bool {
    exists|i: int|
        0 <= i < wishes.len() && (#[trigger] wishes[i]).user_id == w.user_id && wishes[i].device_id
            == w.device_id && wishes[i].request_id == w.request_id
}

/// The requests that wait, without those of a device under an identifier.
pub open spec fn without(
    wishes: Seq<WishView>,
    user: Seq<char>,
    device: Seq<char>,
    request: Seq<char>,
) -> Seq<WishView> {
    wishes.filter(
        |w: WishView| !(w.user_id == user && w.device_id == device && w.request_id == request),
    )
}

/// What is left of the requests without one.
proof fn lemma_without(
    wishes: Seq<WishView>,
    user: Seq<char>,
    device: Seq<char>,
    request: Seq<char>,
)
    ensures
        crate::client::keys::without_wish(
            wishes,
            crate::client::keys::WishId { user_id: user, device_id: device, request_id: request },
        ) == without(wishes, user, device, request),
    decreases wishes.len(),
{
    reveal(Seq::filter);
    if wishes.len() > 0 {
        lemma_without(wishes.drop_last(), user, device, request);
    }
}

/// What an event is about.
proof fn lemma_about(
    event: JsonView,
    action: Seq<char>,
    user: Seq<char>,
    device: Seq<char>,
    request: Seq<char>,
)
    ensures
        about_keys(event, action, user, device, request) <==> crate::client::keys::about_request(
            event,
        ) == Some(
            (
                action,
                crate::client::keys::WishId {
                    user_id: user,
                    device_id: device,
                    request_id: request,
                },
            ),
        ),
{
}

/// Which request an event makes.
proof fn lemma_makes(event: JsonView, w: WishView)
    ensures
        makes(event, w) <==> crate::client::keys::wish_of(event) == Some(w),
{
    lemma_about(event, "request"@, w.user_id, w.device_id, w.request_id);
    assert(asks_for_session(event, w.room_id, w.session_id)
        <==> crate::client::keys::session_asked(event) == Some((w.room_id, w.session_id)));
    if let Some((action, id)) = crate::client::keys::about_request(event) {
        if action == "request"@ {
            lemma_about(event, action, id.user_id, id.device_id, id.request_id);
        }
    }
}

/// A request of another device for keys waits once it has come, with its device, its
/// identifier, its room and its session, and the user is told of it with the event. One that
/// waits already, or that the own device made, changes nothing, and nothing is told of it.
pub proof fn requests_for_keys_wait(
    client: &mut PanClient,
    body: Json,
    r: Vec<DaemonToUi>,
    event: JsonView,
    w: WishView,
)
    requires
        call_ensures(PanClient::note_key_requests, (client, &body), r),
        sent_to_device(body@) == seq![event],
        makes(event, w),
    ensures
        ({
            let c = old(client)@;
            let own = w.user_id == c.user_id && w.device_id == c.device_id;
            if own || waits_already(c.key_wishes, w) {
                &&& final(client)@ == c
                &&& r@.len() == 0
            } else {
                &&& final(client)@ == (ClientView { key_wishes: c.key_wishes.push(w), ..c })
                &&& r@.len() == 1
                &&& r@[0] matches DaemonToUi::KeyRequest { pan_user, event: told }
                &&& pan_user@ == c.user_id
                &&& told@ == event
            }
        }),
{
    let c = old(client)@;
    let events = seq![event];
    assert(events == crate::client::sync::to_device_events(body@));
    lemma_makes(event, w);
    lemma_one(c, event);
    let told = crate::messages::ui_views(r@);
    assert(told.len() == r@.len());
    let id = crate::client::keys::id_of(w);
    assert(crate::client::keys::waits(c.key_wishes, id) <==> waits_already(c.key_wishes, w)) by {
        if crate::client::keys::waits(c.key_wishes, id) {
            let i = choose|i: int|
                0 <= i < c.key_wishes.len() && crate::client::keys::id_of(
                    #[trigger] c.key_wishes[i],
                ) == id;
            assert(c.key_wishes[i].user_id == w.user_id);
        }
        if waits_already(c.key_wishes, w) {
            let i = choose|i: int|
                0 <= i < c.key_wishes.len() && (#[trigger] c.key_wishes[i]).user_id == w.user_id
                    && c.key_wishes[i].device_id == w.device_id && c.key_wishes[i].request_id
                    == w.request_id;
            assert(crate::client::keys::id_of(c.key_wishes[i]) == id);
        }
    }
    reveal_strlit("request");
    reveal_strlit("request_cancellation");
    assert("request"@.len() == 7 && "request_cancellation"@.len() == 20);
    lemma_about(event, "request"@, w.user_id, w.device_id, w.request_id);
    if r@.len() > 0 {
        assert(told[0] == r@[0]@);
    }
}

/// What one event does.
proof fn lemma_one(c: ClientView, event: JsonView)
    ensures
        crate::client::keys::after_key_events(c, seq![event])
            == crate::client::keys::after_key_event(c, event),
        crate::client::keys::keys_told(c, seq![event]) == if crate::client::keys::new_wish(
            c,
            event,
        ) {
            seq![
                crate::messages::UiView::KeyRequest { pan_user: c.user_id, event },
            ]
        } else {
            Seq::empty()
        },
{
    let events = seq![event];
    assert(events.last() == event);
    assert(events.drop_last().len() == 0);
    reveal_with_fuel(crate::client::keys::after_key_events, 2);
    reveal_with_fuel(crate::client::keys::keys_told, 2);
    assert(Seq::<crate::messages::UiView>::empty().push(
        crate::messages::UiView::KeyRequest { pan_user: c.user_id, event },
    ) =~= seq![crate::messages::UiView::KeyRequest { pan_user: c.user_id, event }]);
}

/// A request that its device withdraws waits no more, and no other request changes; nothing is
/// told of it.
pub proof fn withdrawn_requests_are_gone(
    client: &mut PanClient,
    body: Json,
    r: Vec<DaemonToUi>,
    event: JsonView,
    user: Seq<char>,
    device: Seq<char>,
    request: Seq<char>,
)
    requires
        call_ensures(PanClient::note_key_requests, (client, &body), r),
        sent_to_device(body@) == seq![event],
        about_keys(event, "request_cancellation"@, user, device, request),
    ensures
        final(client)@ == (ClientView {
            key_wishes: without(old(client)@.key_wishes, user, device, request),
            ..old(client)@
        }),
        r@.len() == 0,
{
    let c = old(client)@;
    assert(seq![event] == crate::client::sync::to_device_events(body@));
    lemma_about(event, "request_cancellation"@, user, device, request);
    lemma_one(c, event);
    lemma_without(c.key_wishes, user, device, request);
    reveal_strlit("request");
    reveal_strlit("request_cancellation");
    assert("request"@.len() == 7 && "request_cancellation"@.len() == 20);
    assert(crate::messages::ui_views(r@).len() == r@.len());
}

/// An event that neither makes a request for keys nor withdraws one changes nothing, and
/// nothing is told of it.
pub proof fn other_events_change_no_request(
    client: &mut PanClient,
    body: Json,
    r: Vec<DaemonToUi>,
    event: JsonView,
)
    requires
        call_ensures(PanClient::note_key_requests, (client, &body), r),
        sent_to_device(body@) == seq![event],
        forall|w: WishView| !#[trigger] makes(event, w),
        forall|user: Seq<char>, device: Seq<char>, request: Seq<char>|
            !#[trigger] about_keys(event, "request_cancellation"@, user, device, request),
    ensures
        final(client)@ == old(client)@,
        r@.len() == 0,
{
    assert(seq![event] == crate::client::sync::to_device_events(body@));
    if let Some(w) = crate::client::keys::wish_of(event) {
        lemma_makes(event, w);
    }
    if let Some(id) = crate::client::keys::withdrawn_by(event) {
        lemma_about(
            event,
            "request_cancellation"@,
            id.user_id,
            id.device_id,
            id.request_id,
        );
    }
    lemma_one(old(client)@, event);
    assert(crate::messages::ui_views(r@).len() == r@.len());
}

/// Events are looked at one after the other: what comes of a list is what comes of its end
/// once its beginning was looked at, and nothing that is told is lost.
pub proof fn events_are_looked_at_in_turn(
    c: ClientView,
    first: Seq<JsonView>,
    second: Seq<JsonView>,
)
    ensures
        crate::client::keys::after_key_events(c, first + second)
            == crate::client::keys::after_key_events(
            crate::client::keys::after_key_events(c, first),
            second,
        ),
        crate::client::keys::keys_told(c, first + second) == crate::client::keys::keys_told(
            c,
            first,
        ) + crate::client::keys::keys_told(
            crate::client::keys::after_key_events(c, first),
            second,
        ),
    decreases second.len(),
{
    let all = first + second;
    let noted = crate::client::keys::after_key_events(c, first);
    if second.len() == 0 {
        assert(all =~= first);
        assert(crate::client::keys::keys_told(c, first) + Seq::<
            crate::messages::UiView,
        >::empty() =~= crate::client::keys::keys_told(c, first));
    } else {
        assert(all.drop_last() =~= first + second.drop_last());
        assert(all.last() == second.last());
        events_are_looked_at_in_turn(c, first, second.drop_last());
        crate::client::keys::key_events_keep_the_rest(c, first);
        let told = crate::client::keys::keys_told(c, first);
        let later = crate::client::keys::keys_told(noted, second.drop_last());
        let m = crate::messages::UiView::KeyRequest { pan_user: c.user_id, event: second.last() };
        assert((told + later).push(m) =~= told + later.push(m));
    }
}

/// The requests of a device are handed out in their order, and no more wait for it; those of
/// all other devices wait on.
pub proof fn requests_of_a_device_are_taken(
    client: &mut PanClient,
    user: &str,
    device: &str,
    r: Vec<KeyWish>,
)
    requires
        call_ensures(PanClient::take_key_wishes, (client, user, device), r),
    ensures
        crate::client::keys::wish_views(r@) == old(client)@.key_wishes.filter(
            |w: WishView| w.user_id == user@ && w.device_id == device@,
        ),
        final(client)@ == (ClientView {
            key_wishes: old(client)@.key_wishes.filter(
                |w: WishView| !(w.user_id == user@ && w.device_id == device@),
            ),
            ..old(client)@
        }),
{
    crate::laws::commands::lemma_wishes(old(client)@.key_wishes, user@, device@);
    assert(crate::laws::commands::wishes_of_device(old(client)@.key_wishes, user@, device@)
        == old(client)@.key_wishes.filter(
        |w: WishView| w.user_id == user@ && w.device_id == device@,
    ));
    assert(crate::laws::commands::wishes_of_all_others(old(client)@.key_wishes, user@, device@)
        == old(client)@.key_wishes.filter(
        |w: WishView| !(w.user_id == user@ && w.device_id == device@),
    ));
}

/// A device whose request was rejected is told that it is not authorised, of which room and
/// session, and by whom.
pub proof fn rejections_are_explained(w: KeyWish, sender_key: &str, r: Json)
    requires
        call_ensures(withheld_content, (&w, sender_key), r),
    ensures
        crate::laws::syncs::under(Some(r@), "algorithm"@) == Some(JsonView::Text("m.megolm.v1.aes-sha2"@)),
        crate::laws::syncs::under(Some(r@), "code"@) == Some(JsonView::Text("m.unauthorised"@)),
        crate::laws::syncs::under(Some(r@), "room_id"@) == Some(JsonView::Text(w.room_id@)),
        crate::laws::syncs::under(Some(r@), "session_id"@) == Some(JsonView::Text(w.session_id@)),
        crate::laws::syncs::under(Some(r@), "sender_key"@) == Some(JsonView::Text(sender_key@)),
        crate::laws::syncs::under(Some(r@), "reason"@) == Some(
            JsonView::Text("The key request was rejected."@),
        ),
{
    reveal_strlit("algorithm");
    reveal_strlit("code");
    reveal_strlit("reason");
    reveal_strlit("room_id");
    reveal_strlit("session_id");
    reveal_strlit("sender_key");
    assert("algorithm"@.len() == 9 && "code"@.len() == 4 && "reason"@.len() == 6 && "room_id"@.len()
        == 7 && "session_id"@.len() == 10 && "sender_key"@.len() == 10);
    assert("session_id"@[2] == 's' && "sender_key"@[2] == 'n');
}

/// A message about a request for keys goes to the device that made it, and to no other, under
/// its type and its transaction.
pub proof fn key_messages_reach_their_device(
    event_type: &str,
    txn_id: &str,
    w: KeyWish,
    content: Json,
    r: OutgoingRequest,
)
    requires
        call_ensures(key_message, (event_type, txn_id, &w, content), r),
    ensures
        r matches OutgoingRequest::ToDevice { event_type: kind, txn_id: txn, messages } && {
            &&& kind@ == event_type@
            &&& txn@ == txn_id@
            &&& messages@ matches JsonView::Object(users)
            &&& forall|u: Seq<char>| #[trigger] users.contains_key(u) <==> u == w.user_id@
            &&& users[w.user_id@] matches JsonView::Object(devices)
            &&& forall|d: Seq<char>| #[trigger] devices.contains_key(d) <==> d == w.device_id@
            &&& devices[w.device_id@] == content@
        },
{
}

/// The events of one sync are looked at as if each had come in a sync of its own: what comes of
/// them is what comes of the later ones once the earlier ones were looked at.
pub proof fn syncs_are_looked_at_in_turn(
    client: &mut PanClient,
    body: Json,
    r: Vec<DaemonToUi>,
    one: &mut PanClient,
    first: Json,
    a: Vec<DaemonToUi>,
    two: &mut PanClient,
    second: Json,
    b: Vec<DaemonToUi>,
)
    requires
        call_ensures(PanClient::note_key_requests, (client, &body), r),
        call_ensures(PanClient::note_key_requests, (one, &first), a),
        call_ensures(PanClient::note_key_requests, (two, &second), b),
        old(one)@ == old(client)@,
        sent_to_device(body@) == sent_to_device(first@) + sent_to_device(second@),
    ensures
        old(two)@ == final(one)@ ==> {
            &&& final(client)@ == final(two)@
            &&& crate::messages::ui_views(r@) == crate::messages::ui_views(a@)
                + crate::messages::ui_views(b@)
        },
{
    events_are_looked_at_in_turn(
        old(client)@,
        sent_to_device(first@),
        sent_to_device(second@),
    );
    assert(sent_to_device(body@) == crate::client::sync::to_device_events(body@));
    assert(sent_to_device(first@) == crate::client::sync::to_device_events(first@));
    assert(sent_to_device(second@) == crate::client::sync::to_device_events(second@));
}

/// The events in a sync that were sent to the device.
pub open spec fn sent_to_device(body: JsonView) -> Seq<JsonView> {
    crate::laws::syncs::items(
        crate::laws::syncs::under(
            crate::laws::syncs::under(Some(body), "to_device"@),
            "events"@,
        ),
    )
}

} // verus!
