//! Laws of what a session makes of a sync response.

use vstd::prelude::*;
use crate::client::events::{decrypt_jobs, encrypted_places, is_of_type, show_event, DecryptJob};
use crate::client::sync::{sync_inputs, sync_invites, Invite, SyncInputs};
use crate::client::PanClient;
use crate::json::{Json, JsonView};
use crate::messages::DaemonToUi;

verus! {

/// What stands under a key of a value, where there are both.
pub open spec fn under(j: Option<JsonView>, key: Seq<char>) -> Option<JsonView> {
    match j {
        Some(JsonView::Object(m)) => if m.contains_key(key) {
            Some(m[key])
        } else {
            None
        },
        _ => None,
    }
}

/// The items of a value that is an array.
pub open spec fn items(j: Option<JsonView>) -> Seq<JsonView> {
    match j {
        Some(JsonView::Array(all)) => all,
        _ => Seq::empty(),
    }
}

/// The events in a section of a joined room in a sync response.
pub open spec fn joined_events(body: JsonView, room: Seq<char>, section: Seq<char>) -> Seq<
    JsonView,
> {
    items(under(under(under(under(under(Some(body), "rooms"@), "join"@), room), section), "events"@))
}

/// Whether an event is of a type.
pub open spec fn typed(event: JsonView, kind: Seq<char>) -> bool {
    under(Some(event), "type"@) == Some(JsonView::Text(kind))
}

/// Whether a sync response has an event of encryption in a section of a joined room.
pub open spec fn encryption_in(body: JsonView, room: Seq<char>, section: Seq<char>) -> bool {
    exists|i: int|
        0 <= i < joined_events(body, room, section).len() && typed(
            #[trigger] joined_events(body, room, section)[i],
            "m.room.encryption"@,
        )
}

/// A section has an event of encryption where one of its events is one.
proof fn lemma_announces(body: JsonView, room: Seq<char>)
    ensures
        crate::client::sync::announces(body, room) <==> encryption_in(body, room, "state"@)
            || encryption_in(body, room, "timeline"@),
{
    lemma_section(body, room, "state"@);
    lemma_section(body, room, "timeline"@);
}

/// A section has an event of encryption where one of its events is one.
proof fn lemma_section(body: JsonView, room: Seq<char>, section: Seq<char>)
    ensures
        (crate::json::field2(body, "rooms"@, "join"@) matches Some(join) && crate::json::field(
            join,
            room,
        ) matches Some(data) && crate::client::sync::section_has(
            data,
            section,
            "m.room.encryption"@,
        )) <==> encryption_in(body, room, section),
{
    let events = joined_events(body, room, section);
    if encryption_in(body, room, section) {
        let i = choose|i: int|
            0 <= i < events.len() && typed(#[trigger] events[i], "m.room.encryption"@);
        assert(crate::client::events::has_type(events[i], "m.room.encryption"@));
        assert(crate::client::sync::some_of_type(events, "m.room.encryption"@));
    }
    if crate::client::sync::some_of_type(events, "m.room.encryption"@) {
        let i = choose|i: int|
            0 <= i < events.len() && crate::client::events::has_type(
                #[trigger] events[i],
                "m.room.encryption"@,
            );
        assert(typed(events[i], "m.room.encryption"@));
    }
}

/// After a sync a room is known to be encrypted exactly where it was before, or there is an
/// event of encryption at any place among its state or in its timeline.
pub proof fn encryption_is_noticed(
    client: &mut PanClient,
    body: &mut Json,
    decrypted: Vec<(DecryptJob, Json)>,
    found: Vec<(Invite, String)>,
    r: Vec<DaemonToUi>,
    room: Seq<char>,
)
    requires
        call_ensures(PanClient::process_sync, (client, body, &decrypted, &found), r),
    ensures
        final(client)@.encrypted_rooms.contains(room) <==> {
            ||| old(client)@.encrypted_rooms.contains(room)
            ||| encryption_in(old(body)@, room, "state"@)
            ||| encryption_in(old(body)@, room, "timeline"@)
        },
{
    lemma_announces(old(body)@, room);
}

/// Noting the rooms of a sync response notes exactly those with an event of encryption, and
/// changes nothing else.
pub proof fn encryption_is_tracked(client: &mut PanClient, body: Json, room: Seq<char>)
    requires
        call_ensures(PanClient::track_encrypted_rooms, (client, &body), ()),
    ensures
        final(client)@.encrypted_rooms.contains(room) <==> {
            ||| old(client)@.encrypted_rooms.contains(room)
            ||| encryption_in(body@, room, "state"@)
            ||| encryption_in(body@, room, "timeline"@)
        },
        final(client)@ == (crate::client::ClientView {
            encrypted_rooms: final(client)@.encrypted_rooms,
            ..old(client)@
        }),
{
    lemma_announces(body@, room);
}

/// The timeline of a joined room, key by key.
proof fn lemma_timeline(body: JsonView, room: Seq<char>)
    ensures
        match crate::client::events::timeline(body, room) {
            Some(events) => events == joined_events(body, room, "timeline"@),
            None => joined_events(body, room, "timeline"@).len() == 0,
        },
{
    let p = crate::client::events::timeline_path(room);
    let p1 = p.drop_first();
    let p2 = p1.drop_first();
    let p3 = p2.drop_first();
    let p4 = p3.drop_first();
    assert(p[0] == "rooms"@ && p1[0] == "join"@ && p2[0] == room && p3[0] == "timeline"@ && p4[0]
        == "events"@);
    assert(p4.drop_first().len() == 0);
    reveal_with_fuel(crate::json::pointer, 6);
}

/// The events that are to be decrypted are the encrypted ones in the timelines of joined
/// rooms, each with its room and its place, and each once.
pub proof fn encrypted_events_are_found(
    body: Json,
    r: Vec<DecryptJob>,
    room: Seq<char>,
    index: int,
)
    requires
        call_ensures(decrypt_jobs, (&body,), r),
    ensures
        forall|k: int|
            0 <= k < r@.len() ==> {
                let events = joined_events(body@, (#[trigger] r@[k]).room_id@, "timeline"@);
                &&& r@[k].index < events.len()
                &&& events[r@[k].index as int] == r@[k].event@
                &&& typed(r@[k].event@, "m.room.encrypted"@)
            },
        crate::ids::room_id_valid(room) && 0 <= index < joined_events(
            body@,
            room,
            "timeline"@,
        ).len() && typed(joined_events(body@, room, "timeline"@)[index], "m.room.encrypted"@)
            ==> exists|k: int|
            0 <= k < r@.len() && (#[trigger] r@[k]).room_id@ == room && r@[k].index == index,
        forall|k: int, l: int|
            0 <= k < l < r@.len() ==> (#[trigger] r@[k]).room_id@ != (#[trigger] r@[l]).room_id@
                || r@[k].index != r@[l].index,
{
    let jobs = crate::client::events::job_views(r@);
    assert forall|k: int| 0 <= k < r@.len() implies {
        let events = joined_events(body@, (#[trigger] r@[k]).room_id@, "timeline"@);
        &&& r@[k].index < events.len()
        &&& events[r@[k].index as int] == r@[k].event@
        &&& typed(r@[k].event@, "m.room.encrypted"@)
    } by {
        assert(jobs[k] == r@[k]@);
        assert(crate::client::events::is_job(jobs[k], body@));
        lemma_timeline(body@, r@[k].room_id@);
    }
    lemma_timeline(body@, room);
    let events = joined_events(body@, room, "timeline"@);
    if crate::ids::room_id_valid(room) && 0 <= index < events.len() && typed(
        events[index],
        "m.room.encrypted"@,
    ) {
        assert(crate::client::events::wanted(body@, room, index));
        let k = choose|k: int|
            0 <= k < jobs.len() && crate::client::events::at_place(jobs[k], room, index);
        assert(jobs[k] == r@[k]@);
        assert(r@[k].room_id@ == room && r@[k].index == index);
    }
    assert forall|k: int, l: int| 0 <= k < l < r@.len() implies (#[trigger] r@[k]).room_id@ != (
    #[trigger] r@[l]).room_id@ || r@[k].index != r@[l].index by {
        assert(jobs[k] == r@[k]@ && jobs[l] == r@[l]@);
    }
}

/// Whether the homeserver speaks for what stands under a key of an event.
pub open spec fn homeserver_says(key: Seq<char>) -> bool {
    seq!["event_id"@, "origin_server_ts"@, "sender"@, "room_id"@, "unsigned"@].contains(key)
}

/// What a client is shown under a key for an event that was decrypted.
pub open spec fn shown_under(event: JsonView, clear: JsonView, key: Seq<char>) -> Option<JsonView> {
    if homeserver_says(key) && under(Some(event), key) is Some {
        under(Some(event), key)
    } else {
        under(Some(clear), key)
    }
}

/// What is shown of an event under each key.
pub proof fn lemma_shown(event: JsonView, clear: JsonView, key: Seq<char>)
    requires
        clear is Object || clear is Null,
    ensures
        under(Some(crate::client::events::shown_event(event, clear)), key) == shown_under(
            event,
            clear,
            key,
        ),
{
    crate::client::events::homeserver_fields_kept(event, clear, key);
    let all = seq!["event_id"@, "origin_server_ts"@, "sender"@, "room_id"@, "unsigned"@];
    assert(all[0] == "event_id"@ && all[1] == "origin_server_ts"@ && all[2] == "sender"@ && all[3]
        == "room_id"@ && all[4] == "unsigned"@);
    assert(homeserver_says(key) == crate::client::events::kept_key(key));
}

/// A client is shown what an event says, but for what the homeserver says of it: its
/// identifier, its time, its sender, its room and what is not signed.
pub proof fn decrypted_events_are_shown(event: Json, clear: Json, r: Json, key: Seq<char>)
    requires
        clear@ is Object || clear@ is Null,
        call_ensures(show_event, (&event, clear), r),
    ensures
        under(Some(r@), key) == shown_under(event@, clear@, key),
{
    lemma_shown(event@, clear@, key);
}

/// An event is shown decrypted where it opens and its room can be one, and not at all where
/// it does not open.
pub proof fn events_are_shown_where_they_open(
    room: &str,
    event: Json,
    clear: Option<Json>,
    r: Option<Json>,
    key: Seq<char>,
)
    requires
        clear matches Some(c) ==> c@ is Object || c@ is Null,
        call_ensures(PanClient::decrypt_event, (room, &event, clear), r),
    ensures
        r is Some <==> clear is Some && room@.len() > 0 && room@[0] == '!' && !room@.contains('\0'),
        r matches Some(shown) ==> under(Some(shown@), key) == shown_under(
            event@,
            clear.unwrap()@,
            key,
        ),
{
    if let Some(c) = clear {
        lemma_shown(event@, c@, key);
    }
}

/// Whether each of a list of decrypted events is the one at its place in a sync response, and
/// no two are at one place.
pub open spec fn in_their_places(body: JsonView, decrypted: Seq<(DecryptJob, Json)>) -> bool {
    &&& forall|k: int|
        0 <= k < decrypted.len() ==> {
            let job = (#[trigger] decrypted[k]).0;
            let events = joined_events(body, job.room_id@, "timeline"@);
            &&& crate::ids::room_id_valid(job.room_id@)
            &&& job.index < events.len()
            &&& events[job.index as int] == job.event@
            &&& typed(job.event@, "m.room.encrypted"@)
        }
    &&& forall|k: int, l: int|
        0 <= k < l < decrypted.len() ==> (#[trigger] decrypted[k]).0.room_id@ != (
        #[trigger] decrypted[l]).0.room_id@ || decrypted[k].0.index != decrypted[l].0.index
}

/// A sync shows each event of a timeline decrypted where it was decrypted, and else as it
/// came; the number of events stays.
pub proof fn timelines_are_decrypted(
    client: &mut PanClient,
    body: &mut Json,
    decrypted: Vec<(DecryptJob, Json)>,
    found: Vec<(Invite, String)>,
    r: Vec<DaemonToUi>,
    room: Seq<char>,
    index: int,
    key: Seq<char>,
)
    requires
        call_ensures(PanClient::process_sync, (client, body, &decrypted, &found), r),
        forall|k: int|
            0 <= k < decrypted@.len() ==> (#[trigger] decrypted@[k]).1@ is Object
                || decrypted@[k].1@ is Null,
        in_their_places(old(body)@, decrypted@),
        0 <= index < joined_events(old(body)@, room, "timeline"@).len(),
    ensures
        ({
            let before = joined_events(old(body)@, room, "timeline"@);
            let after = joined_events(final(body)@, room, "timeline"@);
            &&& after.len() == before.len()
            &&& forall|k: int|
                0 <= k < decrypted@.len() && (#[trigger] decrypted@[k]).0.room_id@ == room
                    && decrypted@[k].0.index == index ==> under(Some(after[index]), key)
                    == shown_under(before[index], decrypted@[k].1@, key)
            &&& (forall|k: int|
                0 <= k < decrypted@.len() ==> !((#[trigger] decrypted@[k]).0.room_id@ == room
                    && decrypted@[k].0.index == index)) ==> after[index] == before[index]
        }),
{
    let b = old(body)@;
    let views = crate::client::sync::decrypted_views(decrypted@);
    lemma_timeline(b, room);
    lemma_timeline(final(body)@, room);
    assert forall|k: int| 0 <= k < views.len() implies crate::client::events::is_job(
        (#[trigger] views[k]).0,
        b,
    ) by {
        assert(views[k].0 == decrypted@[k].0@);
        lemma_timeline(b, decrypted@[k].0.room_id@);
    }
    assert forall|k: int, l: int| 0 <= k < l < views.len() implies (#[trigger] views[k]).0.room_id
        != (#[trigger] views[l]).0.room_id || views[k].0.index != views[l].0.index by {
        assert(views[k].0 == decrypted@[k].0@ && views[l].0 == decrypted@[l].0@);
    }
    crate::client::sync::sync_shows_events(b, views, room, index);
    let before = joined_events(b, room, "timeline"@);
    let after = joined_events(final(body)@, room, "timeline"@);
    assert forall|k: int|
        0 <= k < decrypted@.len() && (#[trigger] decrypted@[k]).0.room_id@ == room
            && decrypted@[k].0.index == index implies under(Some(after[index]), key)
        == shown_under(before[index], decrypted@[k].1@, key) by {
        assert(views[k].0 == decrypted@[k].0@);
        assert(crate::client::events::at_place(views[k].0, room, index));
        assert(after[index] == crate::client::events::shown_event(before[index], views[k].1));
        lemma_shown(before[index], decrypted@[k].1@, key);
    }
    if forall|k: int|
        0 <= k < decrypted@.len() ==> !((#[trigger] decrypted@[k]).0.room_id@ == room
            && decrypted@[k].0.index == index) {
        assert forall|k: int| 0 <= k < views.len() implies !crate::client::events::at_place(
            (#[trigger] views[k]).0,
            room,
            index,
        ) by {
            assert(views[k].0 == decrypted@[k].0@);
            assert(!(decrypted@[k].0.room_id@ == room && decrypted@[k].0.index == index));
        }
    }
}

/// Outside the timelines of joined rooms a sync stays as it came: under every key but `rooms`,
/// and in every section of every room but the timeline.
pub proof fn the_rest_of_a_sync_stays(
    client: &mut PanClient,
    body: &mut Json,
    decrypted: Vec<(DecryptJob, Json)>,
    found: Vec<(Invite, String)>,
    r: Vec<DaemonToUi>,
    key: Seq<char>,
    room: Seq<char>,
    section: Seq<char>,
)
    requires
        call_ensures(PanClient::process_sync, (client, body, &decrypted, &found), r),
    ensures
        key != "rooms"@ ==> under(Some(final(body)@), key) == under(Some(old(body)@), key),
        key != "join"@ ==> under(under(Some(final(body)@), "rooms"@), key) == under(
            under(Some(old(body)@), "rooms"@),
            key,
        ),
        section != "timeline"@ ==> under(
            under(under(under(Some(final(body)@), "rooms"@), "join"@), room),
            section,
        ) == under(under(under(under(Some(old(body)@), "rooms"@), "join"@), room), section),
{
    let views = crate::client::sync::decrypted_views(decrypted@);
    let b = old(body)@;
    let a = final(body)@;
    if key != "rooms"@ {
        crate::client::sync::sync_keeps_the_rest(b, views, seq![key]);
        lemma_pointer1(a, key);
        lemma_pointer1(b, key);
    }
    if key != "join"@ {
        crate::client::sync::sync_keeps_the_rest(b, views, seq!["rooms"@, key]);
        lemma_pointer2(a, "rooms"@, key);
        lemma_pointer2(b, "rooms"@, key);
    }
    if section != "timeline"@ {
        crate::client::sync::sync_keeps_the_rest(
            b,
            views,
            seq!["rooms"@, "join"@, room, section],
        );
        lemma_pointer4(a, "rooms"@, "join"@, room, section);
        lemma_pointer4(b, "rooms"@, "join"@, room, section);
    }
}

/// A path of one key.
proof fn lemma_pointer1(j: JsonView, a: Seq<char>)
    ensures
        crate::json::pointer(j, seq![a]) == under(Some(j), a),
{
    reveal_with_fuel(crate::json::pointer, 2);
    assert(seq![a].drop_first().len() == 0);
}

/// A path of two keys.
proof fn lemma_pointer2(j: JsonView, a: Seq<char>, b: Seq<char>)
    ensures
        crate::json::pointer(j, seq![a, b]) == under(under(Some(j), a), b),
{
    assert(seq![a, b].drop_first() =~= seq![b]);
    if let Some(v) = crate::json::field(j, a) {
        lemma_pointer1(v, b);
    }
}

/// A path of four keys.
proof fn lemma_pointer4(j: JsonView, a: Seq<char>, b: Seq<char>, c: Seq<char>, d: Seq<char>)
    ensures
        crate::json::pointer(j, seq![a, b, c, d]) == under(
            under(under(under(Some(j), a), b), c),
            d,
        ),
{
    assert(seq![a, b, c, d].drop_first() =~= seq![b, c, d]);
    assert(seq![b, c, d].drop_first() =~= seq![c, d]);
    if let Some(v) = crate::json::field(j, a) {
        if let Some(w) = crate::json::field(v, b) {
            lemma_pointer2(w, c, d);
        }
    }
    reveal_with_fuel(crate::json::pointer, 3);
}

/// The crypto machine is fed the events that were sent to the device, in order, what has
/// changed about devices, how many keys are left, and the token of the next batch.
pub proof fn crypto_machine_is_fed(body: Json, r: SyncInputs)
    requires
        call_ensures(sync_inputs, (&body,), r),
    ensures
        ({
            let events = items(under(under(Some(body@), "to_device"@), "events"@));
            &&& r.to_device_events@.len() == events.len()
            &&& forall|i: int|
                0 <= i < events.len() ==> (#[trigger] r.to_device_events@[i])@ == events[i]
        }),
        match under(Some(body@), "device_lists"@) {
            Some(v) => r.device_lists matches Some(d) && d@ == v,
            None => r.device_lists is None,
        },
        match under(Some(body@), "device_one_time_keys_count"@) {
            Some(v) => r.one_time_key_counts matches Some(d) && d@ == v,
            None => r.one_time_key_counts is None,
        },
        match under(Some(body@), "next_batch"@) {
            Some(JsonView::Text(t)) => r.next_batch matches Some(b) && b@ == t,
            _ => r.next_batch is None,
        },
{
    let events = items(under(under(Some(body@), "to_device"@), "events"@));
    let views = crate::json::items_view(r.to_device_events@);
    assert(views == events);
    assert forall|i: int| 0 <= i < events.len() implies (#[trigger] r.to_device_events@[i])@
        == events[i] by {
        assert(views[i] == r.to_device_events@[i]@);
    }
}

/// Whether an event is a wish of a user to verify, under a transaction.
pub open spec fn wishes_to_verify(
    event: JsonView,
    sender: Seq<char>,
    transaction: Seq<char>,
) -> bool {
    &&& typed(event, "m.key.verification.request"@)
    &&& under(Some(event), "sender"@) == Some(JsonView::Text(sender))
    &&& under(under(Some(event), "content"@), "transaction_id"@) == Some(
        JsonView::Text(transaction),
    )
    &&& crate::ids::user_id_valid(sender)
}

/// Whether a list of wishes has one of a user under a transaction.
pub open spec fn invite_listed(
    list: Seq<Invite>,
    sender: Seq<char>,
    transaction: Seq<char>,
) -> bool {
    exists|k: int|
        0 <= k < list.len() && (#[trigger] list[k]).user_id@ == sender && list[k].transaction_id@
            == transaction
}

/// Whether a list of events has a wish of a user under a transaction.
pub open spec fn wish_sent(
    events: Seq<JsonView>,
    sender: Seq<char>,
    transaction: Seq<char>,
) -> bool {
    exists|i: int|
        0 <= i < events.len() && wishes_to_verify(#[trigger] events[i], sender, transaction)
}

/// The wishes in a list of events.
proof fn lemma_invites(events: Seq<JsonView>, sender: Seq<char>, transaction: Seq<char>)
    ensures
        crate::client::sync::invites_in(events).contains(
            crate::client::sync::InviteView { user_id: sender, transaction_id: transaction },
        ) <==> wish_sent(events, sender, transaction),
        crate::client::sync::invites_in(events).len() <= events.len(),
    decreases events.len(),
{
    let wanted = crate::client::sync::InviteView { user_id: sender, transaction_id: transaction };
    let all = crate::client::sync::invites_in(events);
    if events.len() > 0 {
        let less = events.drop_last();
        lemma_invites(less, sender, transaction);
        let before = crate::client::sync::invites_in(less);
        let last = events[events.len() - 1];
        assert(crate::client::sync::invite_of(last) == Some(wanted) <==> wishes_to_verify(
            last,
            sender,
            transaction,
        ));
        if wish_sent(less, sender, transaction) {
            let i = choose|i: int|
                0 <= i < less.len() && wishes_to_verify(#[trigger] less[i], sender, transaction);
            assert(wishes_to_verify(events[i], sender, transaction));
            let k = choose|k: int| 0 <= k < before.len() && before[k] == wanted;
            assert(all[k] == wanted);
        }
        if wishes_to_verify(last, sender, transaction) {
            assert(all[all.len() - 1] == wanted);
        }
        if all.contains(wanted) {
            let k = choose|k: int| 0 <= k < all.len() && all[k] == wanted;
            if k < before.len() {
                assert(before[k] == wanted);
            } else {
                assert(crate::client::sync::invite_of(last) == Some(wanted));
            }
        }
        if wish_sent(events, sender, transaction) {
            let i = choose|i: int|
                0 <= i < events.len() && wishes_to_verify(
                    #[trigger] events[i],
                    sender,
                    transaction,
                );
            if i < less.len() {
                assert(wishes_to_verify(less[i], sender, transaction));
            }
        }
    }
}

/// The wishes to verify that are found in a sync are those that were sent to the device.
pub proof fn wishes_to_verify_are_found(
    body: Json,
    r: Vec<Invite>,
    sender: Seq<char>,
    transaction: Seq<char>,
)
    requires
        call_ensures(sync_invites, (&body,), r),
    ensures
        invite_listed(r@, sender, transaction) <==> wish_sent(
            items(under(under(Some(body@), "to_device"@), "events"@)),
            sender,
            transaction,
        ),
{
    let events = items(under(under(Some(body@), "to_device"@), "events"@));
    assert(events == crate::client::sync::to_device_events(body@));
    lemma_invites(events, sender, transaction);
    let views = crate::client::sync::invite_views(r@);
    let wanted = crate::client::sync::InviteView { user_id: sender, transaction_id: transaction };
    if invite_listed(r@, sender, transaction) {
        let k = choose|k: int|
            0 <= k < r@.len() && (#[trigger] r@[k]).user_id@ == sender && r@[k].transaction_id@
                == transaction;
        assert(views[k] == wanted);
    }
    if views.contains(wanted) {
        let k = choose|k: int| 0 <= k < views.len() && views[k] == wanted;
        assert(r@[k].user_id@ == sender && r@[k].transaction_id@ == transaction);
    }
}

/// Whether an invitation is the first of its transaction in a list.
pub open spec fn first_of(found: Seq<(Invite, String)>, i: int) -> bool {
    &&& 0 <= i < found.len()
    &&& forall|j: int|
        0 <= j < i ==> (#[trigger] found[j]).0.transaction_id@ != found[i].0.transaction_id@
}

/// Whether a message tells of an invitation, with its user, its device and its transaction,
/// each in its place.
pub open spec fn tells_of_invite(
    m: DaemonToUi,
    pan_user: Seq<char>,
    invite: (Invite, String),
) -> bool {
    &&& m matches DaemonToUi::SasInvite { pan_user: p, user_id, device_id, transaction_id }
    &&& p@ == pan_user
    &&& user_id@ == invite.0.user_id@
    &&& device_id@ == invite.1@
    &&& transaction_id@ == invite.0.transaction_id@
}

/// What is known of invitations after a list of them.
proof fn lemma_known(
    notified: Set<Seq<char>>,
    found: Seq<(Invite, String)>,
    transaction: Seq<char>,
)
    ensures
        crate::client::sync::invites_known(
            notified,
            crate::client::sync::found_views(found),
        ).contains(transaction) <==> notified.contains(transaction) || exists|i: int|
            0 <= i < found.len() && (#[trigger] found[i]).0.transaction_id@ == transaction,
    decreases found.len(),
{
    let views = crate::client::sync::found_views(found);
    if found.len() > 0 {
        let less = found.drop_last();
        lemma_known(notified, less, transaction);
        assert(views.drop_last() =~= crate::client::sync::found_views(less));
        let last = found[found.len() - 1];
        assert(views.last() == (last.0@, last.1@));
        if exists|i: int|
            0 <= i < less.len() && (#[trigger] less[i]).0.transaction_id@ == transaction {
            let i = choose|i: int|
                0 <= i < less.len() && (#[trigger] less[i]).0.transaction_id@ == transaction;
            assert(found[i].0.transaction_id@ == transaction);
        }
        if exists|i: int|
            0 <= i < found.len() && (#[trigger] found[i]).0.transaction_id@ == transaction {
            let i = choose|i: int|
                0 <= i < found.len() && (#[trigger] found[i]).0.transaction_id@ == transaction;
            if i < less.len() {
                assert(less[i].0.transaction_id@ == transaction);
            }
        }
    }
}

/// What is told of a list of invitations: at most one message for each.
proof fn lemma_told(
    pan_user: Seq<char>,
    notified: Set<Seq<char>>,
    found: Seq<(Invite, String)>,
    m: crate::messages::UiView,
)
    ensures
        crate::client::sync::invites_told(
            pan_user,
            notified,
            crate::client::sync::found_views(found),
        ).contains(m) <==> exists|i: int|
            #![trigger found[i]]
            first_of(found, i) && !notified.contains(found[i].0.transaction_id@) && m
                == (crate::messages::UiView::SasInvite {
                pan_user,
                user_id: found[i].0.user_id@,
                device_id: found[i].1@,
                transaction_id: found[i].0.transaction_id@,
            }),
    decreases found.len(),
{
    let views = crate::client::sync::found_views(found);
    let all = crate::client::sync::invites_told(pan_user, notified, views);
    if found.len() > 0 {
        let less = found.drop_last();
        let n = found.len() - 1;
        let last = found[n];
        lemma_told(pan_user, notified, less, m);
        lemma_known(notified, less, last.0.transaction_id@);
        assert(views.drop_last() =~= crate::client::sync::found_views(less));
        assert(views.last() == (last.0@, last.1@));
        let before = crate::client::sync::invites_told(pan_user, notified, views.drop_last());
        assert forall|i: int| 0 <= i < n implies first_of(less, i) == #[trigger] first_of(
            found,
            i,
        ) by {
            if first_of(less, i) {
                assert forall|j: int| 0 <= j < i implies (#[trigger] found[j]).0.transaction_id@
                    != found[i].0.transaction_id@ by {
                    assert(less[j] == found[j] && less[i] == found[i]);
                }
            }
            if first_of(found, i) {
                assert forall|j: int| 0 <= j < i implies (#[trigger] less[j]).0.transaction_id@
                    != less[i].0.transaction_id@ by {
                    assert(less[j] == found[j] && less[i] == found[i]);
                }
            }
        }
        let fresh = !crate::client::sync::invites_known(
            notified,
            views.drop_last(),
        ).contains(last.0.transaction_id@);
        assert(fresh <==> first_of(found, n) && !notified.contains(last.0.transaction_id@)) by {
            if fresh {
                assert forall|j: int| 0 <= j < n implies (#[trigger] found[j]).0.transaction_id@
                    != last.0.transaction_id@ by {
                    assert(less[j] == found[j]);
                }
            }
            if first_of(found, n) && !notified.contains(last.0.transaction_id@) {
                assert forall|j: int| 0 <= j < less.len() implies (
                #[trigger] less[j]).0.transaction_id@ != last.0.transaction_id@ by {
                    assert(less[j] == found[j]);
                }
            }
        }
        if all.contains(m) {
            let k = choose|k: int| 0 <= k < all.len() && all[k] == m;
            if k < before.len() {
                assert(before[k] == m);
                let i = choose|i: int|
                    #![trigger less[i]]
                    first_of(less, i) && !notified.contains(less[i].0.transaction_id@) && m
                        == (crate::messages::UiView::SasInvite {
                        pan_user,
                        user_id: less[i].0.user_id@,
                        device_id: less[i].1@,
                        transaction_id: less[i].0.transaction_id@,
                    });
                assert(found[i] == less[i] && first_of(found, i));
            } else {
                assert(fresh && found[n] == last);
            }
        }
        if exists|i: int|
            #![trigger found[i]]
            first_of(found, i) && !notified.contains(found[i].0.transaction_id@) && m
                == (crate::messages::UiView::SasInvite {
                pan_user,
                user_id: found[i].0.user_id@,
                device_id: found[i].1@,
                transaction_id: found[i].0.transaction_id@,
            }) {
            let i = choose|i: int|
                #![trigger found[i]]
                first_of(found, i) && !notified.contains(found[i].0.transaction_id@) && m
                    == (crate::messages::UiView::SasInvite {
                    pan_user,
                    user_id: found[i].0.user_id@,
                    device_id: found[i].1@,
                    transaction_id: found[i].0.transaction_id@,
                });
            if i < n {
                assert(less[i] == found[i] && first_of(less, i));
                let k = choose|k: int| 0 <= k < before.len() && before[k] == m;
                assert(all[k] == m);
            } else {
                assert(all[all.len() - 1] == m);
            }
        }
    }
}

/// The user interface is told of each new invitation, with the user, the device and the
/// transaction in their places, and of nothing else; what was told is remembered.
pub proof fn new_invitations_are_told(
    client: &mut PanClient,
    found: Vec<(Invite, String)>,
    r: Vec<DaemonToUi>,
    i: int,
    k: int,
    transaction: Seq<char>,
)
    requires
        call_ensures(PanClient::note_invites, (client, &found), r),
    ensures
        first_of(found@, i) && !old(client)@.notified_invite.contains(
            found@[i].0.transaction_id@,
        ) ==> exists|n: int|
            0 <= n < r@.len() && tells_of_invite(
                #[trigger] r@[n],
                old(client)@.user_id,
                found@[i],
            ),
        0 <= k < r@.len() ==> exists|n: int|
            first_of(found@, n) && !old(client)@.notified_invite.contains(
                (#[trigger] found@[n]).0.transaction_id@,
            ) && tells_of_invite(r@[k], old(client)@.user_id, found@[n]),
        final(client)@.notified_invite.contains(transaction) <==> old(
            client,
        )@.notified_invite.contains(transaction) || exists|n: int|
            0 <= n < found@.len() && (#[trigger] found@[n]).0.transaction_id@ == transaction,
        final(client)@ == (crate::client::ClientView {
            notified_invite: final(client)@.notified_invite,
            ..old(client)@
        }),
{
    let user = old(client)@.user_id;
    let notified = old(client)@.notified_invite;
    let told = crate::messages::ui_views(r@);
    lemma_known(notified, found@, transaction);
    if first_of(found@, i) && !notified.contains(found@[i].0.transaction_id@) {
        let m = crate::messages::UiView::SasInvite {
            pan_user: user,
            user_id: found@[i].0.user_id@,
            device_id: found@[i].1@,
            transaction_id: found@[i].0.transaction_id@,
        };
        lemma_told(user, notified, found@, m);
        let n = choose|n: int| 0 <= n < told.len() && told[n] == m;
        assert(told[n] == r@[n]@);
        assert(tells_of_invite(r@[n], user, found@[i]));
    }
    if 0 <= k < r@.len() {
        assert(told[k] == r@[k]@);
        lemma_told(user, notified, found@, told[k]);
        assert(told.contains(told[k]));
        let n = choose|n: int|
            #![trigger found@[n]]
            first_of(found@, n) && !notified.contains(found@[n].0.transaction_id@) && told[k]
                == (crate::messages::UiView::SasInvite {
                pan_user: user,
                user_id: found@[n].0.user_id@,
                device_id: found@[n].1@,
                transaction_id: found@[n].0.transaction_id@,
            });
        assert(tells_of_invite(r@[k], user, found@[n]));
    }
}

/// An event is of the type that it names.
pub proof fn events_have_their_type(event: Json, kind: &str, r: bool)
    requires
        call_ensures(is_of_type, (&event, kind), r),
    ensures
        r <==> typed(event@, kind@),
{
}

/// The places of encrypted events in a list are those of the events of that type, in order.
pub proof fn encrypted_events_have_places(events: Vec<Json>, r: Vec<usize>, k: int, l: int, i: int)
    requires
        call_ensures(encrypted_places, (&events,), r),
    ensures
        0 <= k < r@.len() ==> r@[k] < events@.len() && typed(
            events@[r@[k] as int]@,
            "m.room.encrypted"@,
        ),
        0 <= k < l < r@.len() ==> r@[k] < r@[l],
        0 <= i < events@.len() && typed(events@[i]@, "m.room.encrypted"@) ==> exists|n: int|
            0 <= n < r@.len() && #[trigger] r@[n] == i,
{
    let views = crate::json::items_view(events@);
    assert(views.len() == events@.len());
    if 0 <= k < r@.len() {
        assert(r@[k] < views.len());
        assert(views[r@[k] as int] == events@[r@[k] as int]@);
    }
    if 0 <= i < events@.len() && typed(events@[i]@, "m.room.encrypted"@) {
        assert(views[i] == events@[i]@);
        assert(crate::client::events::encrypted_event(views[i]));
    }
}

/// A sync notes the invitations that were found in it as they are noted on their own, and
/// tells of them; beside these and the encrypted rooms nothing that a session knows changes.
pub proof fn syncs_note_invitations(
    client: &mut PanClient,
    body: &mut Json,
    decrypted: Vec<(DecryptJob, Json)>,
    found: Vec<(Invite, String)>,
    r: Vec<DaemonToUi>,
    noting: &mut PanClient,
    told: Vec<DaemonToUi>,
)
    requires
        call_ensures(PanClient::process_sync, (client, body, &decrypted, &found), r),
        call_ensures(PanClient::note_invites, (noting, &found), told),
        old(noting)@ == old(client)@,
    ensures
        final(client)@.notified_invite == final(noting)@.notified_invite,
        crate::messages::ui_views(r@) == crate::messages::ui_views(told@),
        final(client)@ == (crate::client::ClientView {
            encrypted_rooms: final(client)@.encrypted_rooms,
            notified_invite: final(client)@.notified_invite,
            ..old(client)@
        }),
{
}

/// What is told and known of two lists of invitations, one behind the other.
proof fn lemma_invites_in_turn(
    user: Seq<char>,
    notified: Set<Seq<char>>,
    first: Seq<(Invite, String)>,
    second: Seq<(Invite, String)>,
)
    ensures
        ({
            let x = crate::client::sync::found_views(first);
            let y = crate::client::sync::found_views(second);
            let all = crate::client::sync::found_views(first + second);
            let known = crate::client::sync::invites_known(notified, x);
            &&& crate::client::sync::invites_known(notified, all)
                == crate::client::sync::invites_known(known, y)
            &&& crate::client::sync::invites_told(user, notified, all)
                == crate::client::sync::invites_told(user, notified, x)
                + crate::client::sync::invites_told(user, known, y)
        }),
    decreases second.len(),
{
    let x = crate::client::sync::found_views(first);
    let y = crate::client::sync::found_views(second);
    let all = crate::client::sync::found_views(first + second);
    let told = crate::client::sync::invites_told(user, notified, x);
    if second.len() == 0 {
        assert(first + second =~= first);
        assert(told + Seq::<crate::messages::UiView>::empty() =~= told);
    } else {
        let less = second.drop_last();
        lemma_invites_in_turn(user, notified, first, less);
        assert((first + second).drop_last() =~= first + less);
        assert(all.drop_last() =~= crate::client::sync::found_views(first + less));
        assert(y.drop_last() =~= crate::client::sync::found_views(less));
        assert(all.last() == y.last());
        let known = crate::client::sync::invites_known(notified, x);
        let later = crate::client::sync::invites_told(user, known, y.drop_last());
        let m = crate::messages::UiView::SasInvite {
            pan_user: user,
            user_id: y.last().0.user_id,
            device_id: y.last().1,
            transaction_id: y.last().0.transaction_id,
        };
        assert(told + later.push(m) =~= (told + later).push(m));
    }
}

/// Invitations are noted one after the other, and told of in their order: what comes of a list
/// is what comes of its end once its beginning was noted.
pub proof fn invitations_are_noted_in_turn(
    client: &mut PanClient,
    all: Vec<(Invite, String)>,
    r: Vec<DaemonToUi>,
    one: &mut PanClient,
    first: Vec<(Invite, String)>,
    a: Vec<DaemonToUi>,
    two: &mut PanClient,
    second: Vec<(Invite, String)>,
    b: Vec<DaemonToUi>,
)
    requires
        call_ensures(PanClient::note_invites, (client, &all), r),
        call_ensures(PanClient::note_invites, (one, &first), a),
        call_ensures(PanClient::note_invites, (two, &second), b),
        all@ == first@ + second@,
        old(one)@ == old(client)@,
    ensures
        old(two)@ == final(one)@ ==> {
            &&& final(client)@ == final(two)@
            &&& crate::messages::ui_views(r@) == crate::messages::ui_views(a@)
                + crate::messages::ui_views(b@)
        },
{
    lemma_invites_in_turn(
        old(client)@.user_id,
        old(client)@.notified_invite,
        first@,
        second@,
    );
}

/// What two lists of events wish, one behind the other.
proof fn lemma_wishes_in_turn(first: Seq<JsonView>, second: Seq<JsonView>)
    ensures
        crate::client::sync::invites_in(first + second) == crate::client::sync::invites_in(first)
            + crate::client::sync::invites_in(second),
    decreases second.len(),
{
    let told = crate::client::sync::invites_in(first);
    if second.len() == 0 {
        assert(first + second =~= first);
        assert(told + Seq::<crate::client::sync::InviteView>::empty() =~= told);
    } else {
        let less = second.drop_last();
        lemma_wishes_in_turn(first, less);
        assert((first + second).drop_last() =~= first + less);
        let later = crate::client::sync::invites_in(less);
        if let Some(m) = crate::client::sync::invite_of(second.last()) {
            assert(told + later.push(m) =~= (told + later).push(m));
        }
    }
}

/// Wishes to verify are found in the order of the events that state them: those of one sync are
/// those of its earlier events, and then those of its later ones.
pub proof fn wishes_are_found_in_turn(
    body: Json,
    r: Vec<Invite>,
    first: Json,
    a: Vec<Invite>,
    second: Json,
    b: Vec<Invite>,
)
    requires
        call_ensures(sync_invites, (&body,), r),
        call_ensures(sync_invites, (&first,), a),
        call_ensures(sync_invites, (&second,), b),
        items(under(under(Some(body@), "to_device"@), "events"@)) == items(
            under(under(Some(first@), "to_device"@), "events"@),
        ) + items(under(under(Some(second@), "to_device"@), "events"@)),
    ensures
        r@.map_values(|i: Invite| (i.user_id@, i.transaction_id@)) == a@.map_values(
            |i: Invite| (i.user_id@, i.transaction_id@),
        ) + b@.map_values(|i: Invite| (i.user_id@, i.transaction_id@)),
{
    let x = items(under(under(Some(first@), "to_device"@), "events"@));
    let y = items(under(under(Some(second@), "to_device"@), "events"@));
    lemma_wishes_in_turn(x, y);
    assert(x == crate::client::sync::to_device_events(first@));
    assert(y == crate::client::sync::to_device_events(second@));
    assert(x + y == crate::client::sync::to_device_events(body@));
    let pair = |i: Invite| (i.user_id@, i.transaction_id@);
    let all = crate::client::sync::invite_views(r@);
    let one = crate::client::sync::invite_views(a@);
    let two = crate::client::sync::invite_views(b@);
    assert(all == one + two);
    assert(all.len() == r@.len() && one.len() == a@.len() && two.len() == b@.len());
    assert forall|i: int| 0 <= i < r@.len() implies r@.map_values(pair)[i] == (a@.map_values(pair)
        + b@.map_values(pair))[i] by {
        assert(all[i] == r@[i]@);
        if i < a@.len() {
            assert(one[i] == a@[i]@);
        } else {
            assert(two[i - a@.len()] == b@[i - a@.len()]@);
        }
    }
    assert(r@.map_values(pair) =~= a@.map_values(pair) + b@.map_values(pair));
}

} // verus!
