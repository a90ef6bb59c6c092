//! Room keys that other devices ask for. A request waits until the user forwards the keys or
//! rejects it, or the device withdraws it.

use vstd::prelude::*;
use crate::client::events::is_of_type;
use crate::client::requests::OutgoingRequest;
use crate::client::{ClientView, PanClient};
use crate::ids::is_user_id;
use crate::json::Json;
use crate::messages::DaemonToUi;
use crate::text::same;

verus! {

/// A request of a device for the keys of a session in a room.
#[derive(Debug)]
pub struct KeyWish {
    pub user_id: String,
    pub device_id: String,
    pub request_id: String,
    pub room_id: String,
    pub session_id: String,
}

/// What a request for keys means.
#[verifier::ext_equal]
pub struct WishView {
    pub user_id: Seq<char>,
    pub device_id: Seq<char>,
    pub request_id: Seq<char>,
    pub room_id: Seq<char>,
    pub session_id: Seq<char>,
}

impl View for KeyWish {
    type V = WishView;

    open spec fn view(&self) -> WishView {
        WishView {
            user_id: self.user_id@,
            device_id: self.device_id@,
            request_id: self.request_id@,
            room_id: self.room_id@,
            session_id: self.session_id@,
        }
    }
}

/// What a list of requests for keys means.
pub open spec fn wish_views(wishes: Seq<KeyWish>) -> Seq<WishView> {
    wishes.map_values(|w: KeyWish| w@)
}

/// Who made a request for keys, and under which identifier.
pub struct WishId {
    pub user_id: Seq<char>,
    pub device_id: Seq<char>,
    pub request_id: Seq<char>,
}

/// Who made a request for keys, and under which identifier.
pub open spec fn id_of(w: WishView) -> WishId {
    WishId { user_id: w.user_id, device_id: w.device_id, request_id: w.request_id }
}

/// The request that an event is about, where it does something about one: what that is, and
/// who made the request.
pub open spec fn about_request(event: crate::json::JsonView) -> Option<(Seq<char>, WishId)> {
    match (
        crate::json::text_field(event, "sender"@),
        crate::json::field(event, "content"@),
    ) {
        (Some(sender), Some(content)) => match (
            crate::json::text_field(content, "action"@),
            crate::json::text_field(content, "requesting_device_id"@),
            crate::json::text_field(content, "request_id"@),
        ) {
            (Some(action), Some(device_id), Some(request_id)) => if crate::client::events::has_type(
                event,
                "m.room_key_request"@,
            ) && crate::ids::user_id_valid(sender) {
                Some((action, WishId { user_id: sender, device_id, request_id }))
            } else {
                None
            },
            _ => None,
        },
        _ => None,
    }
}

/// The room and the session whose keys an event asks for.
pub open spec fn session_asked(event: crate::json::JsonView) -> Option<(Seq<char>, Seq<char>)> {
    match crate::json::field2(event, "content"@, "body"@) {
        Some(body) => match (
            crate::json::text_field(body, "room_id"@),
            crate::json::text_field(body, "session_id"@),
        ) {
            (Some(room_id), Some(session_id)) => Some((room_id, session_id)),
            _ => None,
        },
        None => None,
    }
}

/// The request for keys that an event makes.
pub open spec fn wish_of(event: crate::json::JsonView) -> Option<WishView> {
    match (about_request(event), session_asked(event)) {
        (Some((action, id)), Some((room_id, session_id))) => if action == "request"@ {
            Some(
                WishView {
                    user_id: id.user_id,
                    device_id: id.device_id,
                    request_id: id.request_id,
                    room_id,
                    session_id,
                },
            )
        } else {
            None
        },
        _ => None,
    }
}

/// The request for keys that an event withdraws.
pub open spec fn withdrawn_by(event: crate::json::JsonView) -> Option<WishId> {
    match about_request(event) {
        Some((action, id)) => if action == "request_cancellation"@ {
            Some(id)
        } else {
            None
        },
        None => None,
    }
}

/// Whether a request waits.
pub open spec fn waits(wishes: Seq<WishView>, id: WishId) -> bool {
    exists|i: int| 0 <= i < wishes.len() && id_of(#[trigger] wishes[i]) == id
}

/// The requests without one.
pub open spec fn without_wish(wishes: Seq<WishView>, id: WishId) -> Seq<WishView>
    decreases wishes.len(),
{
    if wishes.len() == 0 {
        wishes
    } else {
        let before = without_wish(wishes.drop_last(), id);
        if id_of(wishes.last()) == id {
            before
        } else {
            before.push(wishes.last())
        }
    }
}

/// Whether a request is that of a device.
pub open spec fn from_device(w: WishView, user_id: Seq<char>, device_id: Seq<char>) -> bool {
    w.user_id == user_id && w.device_id == device_id
}

/// The requests of a device, in order.
pub open spec fn wishes_of(
    wishes: Seq<WishView>,
    user_id: Seq<char>,
    device_id: Seq<char>,
) -> Seq<WishView>
    decreases wishes.len(),
{
    if wishes.len() == 0 {
        wishes
    } else {
        let before = wishes_of(wishes.drop_last(), user_id, device_id);
        if from_device(wishes.last(), user_id, device_id) {
            before.push(wishes.last())
        } else {
            before
        }
    }
}

/// The requests of all devices but one, in order.
pub open spec fn wishes_of_others(
    wishes: Seq<WishView>,
    user_id: Seq<char>,
    device_id: Seq<char>,
) -> Seq<WishView>
    decreases wishes.len(),
{
    if wishes.len() == 0 {
        wishes
    } else {
        let before = wishes_of_others(wishes.drop_last(), user_id, device_id);
        if from_device(wishes.last(), user_id, device_id) {
            before
        } else {
            before.push(wishes.last())
        }
    }
}

/// Whether an event makes a request that is new to a session. Its own device makes none.
pub open spec fn new_wish(c: ClientView, event: crate::json::JsonView) -> bool {
    &&& wish_of(event) matches Some(w)
    &&& !from_device(w, c.user_id, c.device_id)
    &&& !waits(c.key_wishes, id_of(w))
}

/// A session after it has looked at an event that was sent to its device.
pub open spec fn after_key_event(c: ClientView, event: crate::json::JsonView) -> ClientView {
    if new_wish(c, event) {
        ClientView { key_wishes: c.key_wishes.push(wish_of(event).unwrap()), ..c }
    } else {
        match withdrawn_by(event) {
            Some(id) => ClientView { key_wishes: without_wish(c.key_wishes, id), ..c },
            None => c,
        }
    }
}

/// A session after it has looked at events that were sent to its device.
pub open spec fn after_key_events(c: ClientView, events: Seq<crate::json::JsonView>) -> ClientView
    decreases events.len(),
{
    if events.len() == 0 {
        c
    } else {
        after_key_event(after_key_events(c, events.drop_last()), events.last())
    }
}

/// What the user interface is told of events that were sent to a device: of each new
/// request for keys, with the event, so that its user can decide.
pub open spec fn keys_told(c: ClientView, events: Seq<crate::json::JsonView>) -> Seq<
    crate::messages::UiView,
>
    decreases events.len(),
{
    if events.len() == 0 {
        Seq::empty()
    } else {
        let before = keys_told(c, events.drop_last());
        if new_wish(after_key_events(c, events.drop_last()), events.last()) {
            before.push(
                crate::messages::UiView::KeyRequest { pan_user: c.user_id, event: events.last() },
            )
        } else {
            before
        }
    }
}

/// Looking at requests for keys changes nothing else that a session knows.
pub proof fn key_events_keep_the_rest(c: ClientView, events: Seq<crate::json::JsonView>)
    ensures
        after_key_events(c, events) == (ClientView {
            key_wishes: after_key_events(c, events).key_wishes,
            ..c
        }),
    decreases events.len(),
{
    if events.len() > 0 {
        key_events_keep_the_rest(c, events.drop_last());
    }
}

/// A request for keys waits once it was made, and is told once; once its device withdraws
/// it, it waits no more.
pub proof fn key_requests_wait(
    c: ClientView,
    event: crate::json::JsonView,
    withdrawal: crate::json::JsonView,
)
    requires
        wish_of(event) matches Some(w) && !from_device(w, c.user_id, c.device_id),
        withdrawn_by(withdrawal) == Some(id_of(wish_of(event).unwrap())),
    ensures
        waits(after_key_event(c, event).key_wishes, id_of(wish_of(event).unwrap())),
        !new_wish(after_key_event(c, event), event),
        !waits(
            after_key_event(after_key_event(c, event), withdrawal).key_wishes,
            id_of(wish_of(event).unwrap()),
        ),
{
    let w = wish_of(event).unwrap();
    let made = after_key_event(c, event);
    if new_wish(c, event) {
        assert(made.key_wishes[made.key_wishes.len() - 1] == w);
    }
    reveal_strlit("request");
    reveal_strlit("request_cancellation");
    assert("request"@.len() == 7 && "request_cancellation"@.len() == 20);
    assert(wish_of(withdrawal) is None);
    lemma_without_wish(made.key_wishes, id_of(w));
}

/// A request that was taken out waits no more.
proof fn lemma_without_wish(wishes: Seq<WishView>, id: WishId)
    ensures
        !waits(without_wish(wishes, id), id),
    decreases wishes.len(),
{
    if wishes.len() > 0 {
        lemma_without_wish(wishes.drop_last(), id);
        let before = without_wish(wishes.drop_last(), id);
        let after = without_wish(wishes, id);
        assert forall|i: int| 0 <= i < after.len() implies id_of(#[trigger] after[i]) != id by {
            if i < before.len() {
                assert(after[i] == before[i]);
            }
        }
    }
}

/// Once the requests of a device were taken, none of it waits; those of other devices do.
pub proof fn taken_requests_are_gone(
    wishes: Seq<WishView>,
    user_id: Seq<char>,
    device_id: Seq<char>,
    other: WishId,
)
    ensures
        wishes_of(wishes_of_others(wishes, user_id, device_id), user_id, device_id).len() == 0,
        (other.user_id, other.device_id) != (user_id, device_id) ==> waits(
            wishes_of_others(wishes, user_id, device_id),
            other,
        ) == waits(wishes, other),
    decreases wishes.len(),
{
    if wishes.len() > 0 {
        let less = wishes.drop_last();
        let last = wishes.last();
        taken_requests_are_gone(less, user_id, device_id, other);
        let before = wishes_of_others(less, user_id, device_id);
        let after = wishes_of_others(wishes, user_id, device_id);
        if !from_device(last, user_id, device_id) {
            assert(after.drop_last() =~= before);
        }
        if (other.user_id, other.device_id) != (user_id, device_id) {
            if waits(wishes, other) {
                let i = choose|i: int| 0 <= i < wishes.len() && id_of(#[trigger] wishes[i]) == other;
                if i < less.len() {
                    assert(id_of(less[i]) == other);
                    let j = choose|j: int|
                        0 <= j < before.len() && id_of(#[trigger] before[j]) == other;
                    assert(id_of(after[j]) == other);
                } else {
                    assert(id_of(after[after.len() - 1]) == other);
                }
            }
            if waits(after, other) {
                let j = choose|j: int| 0 <= j < after.len() && id_of(#[trigger] after[j]) == other;
                if j < before.len() {
                    assert(id_of(before[j]) == other);
                    let i = choose|i: int|
                        0 <= i < less.len() && id_of(#[trigger] less[i]) == other;
                    assert(id_of(wishes[i]) == other);
                } else {
                    assert(id_of(wishes[wishes.len() - 1]) == other);
                }
            }
        }
    }
}

/// The request for keys that an event is about: what is done about it, and who made it.
fn read_request<'a>(event: &'a Json) -> (r: Option<(&'a str, &'a str, &'a str, &'a str)>)
    ensures
        r is Some <==> about_request(event@) is Some,
        r matches Some(p) ==> about_request(event@) == Some(
            (p.0@, (WishId { user_id: p.1@, device_id: p.2@, request_id: p.3@ })),
        ),
{
    if !is_of_type(event, "m.room_key_request") {
        return None;
    }
    match (event.get_text("sender"), event.get("content")) {
        (Some(sender), Some(content)) => match (
            content.get_text("action"),
            content.get_text("requesting_device_id"),
            content.get_text("request_id"),
        ) {
            (Some(action), Some(device_id), Some(request_id)) => if is_user_id(sender) {
                Some((action, sender, device_id, request_id))
            } else {
                None
            },
            _ => None,
        },
        _ => None,
    }
}

/// The request for keys that an event makes.
fn read_wish(event: &Json) -> (r: Option<KeyWish>)
    ensures
        r is Some <==> wish_of(event@) is Some,
        r matches Some(w) ==> wish_of(event@) == Some(w@),
{
    match (read_request(event), event.get2("content", "body")) {
        (Some((action, user_id, device_id, request_id)), Some(body)) => match (
            body.get_text("room_id"),
            body.get_text("session_id"),
        ) {
            (Some(room_id), Some(session_id)) => if same(action, "request") {
                Some(
                    KeyWish {
                        user_id: user_id.to_owned(),
                        device_id: device_id.to_owned(),
                        request_id: request_id.to_owned(),
                        room_id: room_id.to_owned(),
                        session_id: session_id.to_owned(),
                    },
                )
            } else {
                None
            },
            _ => None,
        },
        _ => None,
    }
}

/// Whether a request is the one of a device under an identifier.
fn has_id(w: &KeyWish, user_id: &str, device_id: &str, request_id: &str) -> (r: bool)
    ensures
        r == (id_of(w@) == (WishId {
            user_id: user_id@,
            device_id: device_id@,
            request_id: request_id@,
        })),
{
    same(w.user_id.as_str(), user_id) && same(w.device_id.as_str(), device_id) && same(
        w.request_id.as_str(),
        request_id,
    )
}

/// A copy of a request.
fn copy_wish(w: &KeyWish) -> (r: KeyWish)
    ensures
        r@ == w@,
{
    KeyWish {
        user_id: w.user_id.clone(),
        device_id: w.device_id.clone(),
        request_id: w.request_id.clone(),
        room_id: w.room_id.clone(),
        session_id: w.session_id.clone(),
    }
}

/// What a device is told whose request for keys was rejected. `sender_key` is the key of the
/// own device.
pub open spec fn withheld(w: WishView, sender_key: Seq<char>) -> crate::json::JsonView {
    crate::json::JsonView::Object(
        Map::empty().insert("algorithm"@, crate::json::JsonView::Text("m.megolm.v1.aes-sha2"@)).insert(
            "code"@,
            crate::json::JsonView::Text("m.unauthorised"@),
        ).insert("reason"@, crate::json::JsonView::Text("The key request was rejected."@)).insert(
            "room_id"@,
            crate::json::JsonView::Text(w.room_id),
        ).insert("session_id"@, crate::json::JsonView::Text(w.session_id)).insert(
            "sender_key"@,
            crate::json::JsonView::Text(sender_key),
        ),
    )
}

/// What a device is told whose request for keys was rejected.
pub fn withheld_content(w: &KeyWish, sender_key: &str) -> (r: Json)
    ensures
        r@ == withheld(w@, sender_key@),
{
    let mut content = Json::object();
    content.set("algorithm", Json::text("m.megolm.v1.aes-sha2"));
    content.set("code", Json::text("m.unauthorised"));
    content.set("reason", Json::text("The key request was rejected."));
    content.set("room_id", Json::text(w.room_id.as_str()));
    content.set("session_id", Json::text(w.session_id.as_str()));
    content.set("sender_key", Json::text(sender_key));
    content
}

/// A message for the device that made a request for keys.
pub fn key_message(event_type: &str, txn_id: &str, w: &KeyWish, content: Json) -> (r:
    OutgoingRequest)
    ensures
        r matches OutgoingRequest::ToDevice { event_type: kind, txn_id: txn, messages } && kind@
            == event_type@ && txn@ == txn_id@ && messages@ == crate::client::requests::object1(
            w@.user_id,
            crate::client::requests::object1(w@.device_id, content@),
        ),
{
    let mut devices = Json::object();
    devices.set(w.device_id.as_str(), content);
    let mut messages = Json::object();
    messages.set(w.user_id.as_str(), devices);
    OutgoingRequest::ToDevice {
        event_type: event_type.to_owned(),
        txn_id: txn_id.to_owned(),
        messages,
    }
}

impl PanClient {
    /// Whether a request waits.
    fn has_wish(&self, user_id: &str, device_id: &str, request_id: &str) -> (r: bool)
        ensures
            r == waits(
                self@.key_wishes,
                WishId { user_id: user_id@, device_id: device_id@, request_id: request_id@ },
            ),
    {
        let ghost all = self@.key_wishes;
        let ghost id = WishId {
            user_id: user_id@,
            device_id: device_id@,
            request_id: request_id@,
        };
        let mut i: usize = 0;
        while i < self.key_wishes.len()
            invariant
                i <= self.key_wishes@.len(),
                all == wish_views(self.key_wishes@),
                id == (WishId {
                    user_id: user_id@,
                    device_id: device_id@,
                    request_id: request_id@,
                }),
                forall|j: int| 0 <= j < i ==> id_of(#[trigger] all[j]) != id,
            decreases self.key_wishes@.len() - i,
        {
            assert(all[i as int] == self.key_wishes@[i as int]@);
            if has_id(&self.key_wishes[i], user_id, device_id, request_id) {
                return true;
            }
            i = i + 1;
        }
        false
    }

    /// Takes out a request.
    fn drop_wish(&mut self, user_id: &str, device_id: &str, request_id: &str)
        ensures
            final(self)@ == (ClientView {
                key_wishes: without_wish(
                    old(self)@.key_wishes,
                    WishId { user_id: user_id@, device_id: device_id@, request_id: request_id@ },
                ),
                ..old(self)@
            }),
    {
        let ghost all = self@.key_wishes;
        let ghost id = WishId {
            user_id: user_id@,
            device_id: device_id@,
            request_id: request_id@,
        };
        let mut rest: Vec<KeyWish> = Vec::new();
        let mut i: usize = 0;
        assert(wish_views(rest@) =~= without_wish(all.take(0), id));
        while i < self.key_wishes.len()
            invariant
                i <= self.key_wishes@.len(),
                all == wish_views(self.key_wishes@),
                id == (WishId {
                    user_id: user_id@,
                    device_id: device_id@,
                    request_id: request_id@,
                }),
                wish_views(rest@) == without_wish(all.take(i as int), id),
            decreases self.key_wishes@.len() - i,
        {
            assert(all.take(i + 1).drop_last() == all.take(i as int));
            assert(all.take(i + 1).last() == self.key_wishes@[i as int]@);
            if !has_id(&self.key_wishes[i], user_id, device_id, request_id) {
                let ghost before = wish_views(rest@);
                let w = copy_wish(&self.key_wishes[i]);
                rest.push(w);
                assert(wish_views(rest@) =~= before.push(w@));
            }
            i = i + 1;
        }
        assert(all.take(i as int) == all);
        self.key_wishes = rest;
    }

    /// Takes out the requests of a device.
    pub fn take_key_wishes(&mut self, user_id: &str, device_id: &str) -> (r: Vec<KeyWish>)
        ensures
            wish_views(r@) == wishes_of(old(self)@.key_wishes, user_id@, device_id@),
            final(self)@ == (ClientView {
                key_wishes: wishes_of_others(old(self)@.key_wishes, user_id@, device_id@),
                ..old(self)@
            }),
    {
        let ghost all = self@.key_wishes;
        let mut taken: Vec<KeyWish> = Vec::new();
        let mut rest: Vec<KeyWish> = Vec::new();
        let mut i: usize = 0;
        assert(wish_views(taken@) =~= wishes_of(all.take(0), user_id@, device_id@));
        assert(wish_views(rest@) =~= wishes_of_others(all.take(0), user_id@, device_id@));
        while i < self.key_wishes.len()
            invariant
                i <= self.key_wishes@.len(),
                all == wish_views(self.key_wishes@),
                wish_views(taken@) == wishes_of(all.take(i as int), user_id@, device_id@),
                wish_views(rest@) == wishes_of_others(all.take(i as int), user_id@, device_id@),
            decreases self.key_wishes@.len() - i,
        {
            assert(all.take(i + 1).drop_last() == all.take(i as int));
            assert(all.take(i + 1).last() == self.key_wishes@[i as int]@);
            let w = copy_wish(&self.key_wishes[i]);
            if same(w.user_id.as_str(), user_id) && same(w.device_id.as_str(), device_id) {
                let ghost before = wish_views(taken@);
                taken.push(w);
                assert(wish_views(taken@) =~= before.push(w@));
            } else {
                let ghost before = wish_views(rest@);
                rest.push(w);
                assert(wish_views(rest@) =~= before.push(w@));
            }
            i = i + 1;
        }
        assert(all.take(i as int) == all);
        self.key_wishes = rest;
        taken
    }

    /// Looks at an event that was sent to the device, and says whether it makes a new
    /// request.
    fn note_key_event(&mut self, event: &Json) -> (r: bool)
        ensures
            r == new_wish(old(self)@, event@),
            final(self)@ == after_key_event(old(self)@, event@),
    {
        match read_wish(event) {
            Some(w) => {
                let own = same(w.user_id.as_str(), self.user_id.as_str()) && same(
                    w.device_id.as_str(),
                    self.device_id.as_str(),
                );
                if !own && !self.has_wish(
                    w.user_id.as_str(),
                    w.device_id.as_str(),
                    w.request_id.as_str(),
                ) {
                    let ghost before = self@.key_wishes;
                    self.key_wishes.push(w);
                    assert(self@.key_wishes =~= before.push(w@));
                    return true;
                }
            },
            None => {},
        }
        match read_request(event) {
            Some((action, user_id, device_id, request_id)) => {
                if same(action, "request_cancellation") {
                    self.drop_wish(user_id, device_id, request_id);
                }
            },
            None => {},
        }
        false
    }

    /// Notes the requests for keys in a sync response, and those that are withdrawn, and
    /// tells the user interface of the new ones.
    pub fn note_key_requests(&mut self, body: &Json) -> (r: Vec<DaemonToUi>)
        ensures
            final(self)@ == after_key_events(
                old(self)@,
                crate::client::sync::to_device_events(body@),
            ),
            crate::messages::ui_views(r@) == keys_told(
                old(self)@,
                crate::client::sync::to_device_events(body@),
            ),
    {
        let ghost start = self@;
        let ghost all = crate::client::sync::to_device_events(body@);
        let mut out: Vec<DaemonToUi> = Vec::new();
        assert(crate::messages::ui_views(out@) =~= keys_told(start, all.take(0)));
        assert(after_key_events(start, all.take(0)) == start);
        match body.get2("to_device", "events") {
            Some(v) => match v.as_items() {
                Some(events) => {
                    let mut i: usize = 0;
                    while i < events.len()
                        invariant
                            i <= events@.len(),
                            all == crate::json::items_view(events@),
                            self@ == after_key_events(start, all.take(i as int)),
                            self@.user_id == start.user_id,
                            crate::messages::ui_views(out@) == keys_told(
                                start,
                                all.take(i as int),
                            ),
                        decreases events@.len() - i,
                    {
                        assert(all.take(i + 1).drop_last() == all.take(i as int));
                        assert(all.take(i + 1).last() == events@[i as int]@);
                        if self.note_key_event(&events[i]) {
                            let ghost before = crate::messages::ui_views(out@);
                            let message = DaemonToUi::KeyRequest {
                                pan_user: self.user_id.clone(),
                                event: events[i].copy(),
                            };
                            out.push(message);
                            assert(crate::messages::ui_views(out@) =~= before.push(message@));
                        }
                        i = i + 1;
                    }
                },
                None => {},
            },
            None => {},
        }
        assert(all.take(all.len() as int) == all);
        out
    }
}

} // verus!
