//! What a session makes of a sync response.

use vstd::prelude::*;
use crate::client::events::{is_of_type, show_event, DecryptJob};
use crate::client::PanClient;
use crate::ids::is_user_id;
use crate::json::Json;
use crate::messages::DaemonToUi;

verus! {

/// What the crypto machine is fed from a sync response.
#[derive(Debug)]
pub struct SyncInputs {
    pub to_device_events: Vec<Json>,
    pub device_lists: Option<Json>,
    pub one_time_key_counts: Option<Json>,
    pub next_batch: Option<String>,
}

/// A device's wish to verify: who sent it, and its transaction.
#[derive(Debug)]
pub struct Invite {
    pub user_id: String,
    pub transaction_id: String,
}

/// What a wish to verify means.
#[verifier::ext_equal]
pub struct InviteView {
    pub user_id: Seq<char>,
    pub transaction_id: Seq<char>,
}

impl View for Invite {
    type V = InviteView;

    open spec fn view(&self) -> InviteView {
        InviteView { user_id: self.user_id@, transaction_id: self.transaction_id@ }
    }
}

/// What an optional JSON value means.
pub open spec fn optional_json(j: Option<Json>) -> Option<crate::json::JsonView> {
    match j {
        Some(v) => Some(v@),
        None => None,
    }
}

/// What an optional text means.
pub open spec fn optional_text(s: Option<String>) -> Option<Seq<char>> {
    match s {
        Some(v) => Some(v@),
        None => None,
    }
}

/// The events in a sync response that were sent to the device.
pub open spec fn to_device_events(body: crate::json::JsonView) -> Seq<crate::json::JsonView> {
    match crate::json::field2(body, "to_device"@, "events"@) {
        Some(v) => match crate::json::items_of(v) {
            Some(events) => events,
            None => Seq::empty(),
        },
        None => Seq::empty(),
    }
}

/// A copy of a list of JSON values.
fn copy_items(items: &Vec<Json>) -> (r: Vec<Json>)
    ensures
        crate::json::items_view(r@) == crate::json::items_view(items@),
{
    let mut out: Vec<Json> = Vec::new();
    let mut i: usize = 0;
    while i < items.len()
        invariant
            i <= items@.len(),
            out@.len() == i,
            forall|j: int| 0 <= j < i ==> (#[trigger] out@[j])@ == items@[j]@,
        decreases items@.len() - i,
    {
        out.push(items[i].copy());
        i = i + 1;
    }
    assert(crate::json::items_view(out@) =~= crate::json::items_view(items@));
    out
}

/// A copy of an optional JSON value.
fn copy_field_of(body: &Json, key: &str) -> (r: Option<Json>)
    ensures
        optional_json(r) == crate::json::field(body@, key@),
{
    match body.get(key) {
        Some(v) => Some(v.copy()),
        None => None,
    }
}

/// What the crypto machine is fed from a sync response.
pub fn sync_inputs(body: &Json) -> (r: SyncInputs)
    ensures
        crate::json::items_view(r.to_device_events@) == to_device_events(body@),
        optional_json(r.device_lists) == crate::json::field(body@, "device_lists"@),
        optional_json(r.one_time_key_counts) == crate::json::field(
            body@,
            "device_one_time_keys_count"@,
        ),
        optional_text(r.next_batch) == crate::json::text_field(body@, "next_batch"@),
{
    let none: Vec<Json> = Vec::new();
    assert(crate::json::items_view(none@) =~= Seq::empty());
    let events = match body.get2("to_device", "events") {
        Some(v) => match v.as_items() {
            Some(items) => copy_items(items),
            None => none,
        },
        None => none,
    };
    SyncInputs {
        to_device_events: events,
        device_lists: copy_field_of(body, "device_lists"),
        one_time_key_counts: copy_field_of(body, "device_one_time_keys_count"),
        next_batch: match body.get_text("next_batch") {
            Some(t) => Some(t.to_owned()),
            None => None,
        },
    }
}

/// Whether a list has an event of a type.
pub open spec fn some_of_type(events: Seq<crate::json::JsonView>, kind: Seq<char>) -> bool {
    exists|i: int|
        0 <= i < events.len() && crate::client::events::has_type(#[trigger] events[i], kind)
}

/// Whether there is an event of a type among the events of a section of a room.
pub open spec fn section_has(
    room: crate::json::JsonView,
    section: Seq<char>,
    kind: Seq<char>,
) -> bool {
    &&& crate::json::field2(room, section, "events"@) matches Some(v)
    &&& crate::json::items_of(v) matches Some(events)
    &&& some_of_type(events, kind)
}

/// Whether a sync response says that a room is encrypted.
pub open spec fn announces(body: crate::json::JsonView, room: Seq<char>) -> bool {
    &&& crate::json::field2(body, "rooms"@, "join"@) matches Some(join)
    &&& crate::json::field(join, room) matches Some(data)
    &&& section_has(data, "state"@, "m.room.encryption"@) || section_has(
        data,
        "timeline"@,
        "m.room.encryption"@,
    )
}

/// The rooms that a sync response says are encrypted.
pub open spec fn announced(body: crate::json::JsonView) -> Set<Seq<char>> {
    Set::new(|room: Seq<char>| announces(body, room))
}

/// Whether there is an event of a type among the events of a section of a room.
fn has_in_section(room: &Json, section: &str, kind: &str) -> (r: bool)
    ensures
        r == section_has(room@, section@, kind@),
{
    match room.get2(section, "events") {
        Some(v) => match v.as_items() {
            Some(events) => {
                let ghost all = crate::json::items_view(events@);
                let mut i: usize = 0;
                while i < events.len()
                    invariant
                        i <= events@.len(),
                        all == crate::json::items_view(events@),
                        crate::json::field2(room@, section@, "events"@) == Some(v@),
                        crate::json::items_of(v@) == Some(all),
                        forall|j: int|
                            0 <= j < i ==> !crate::client::events::has_type(
                                #[trigger] all[j],
                                kind@,
                            ),
                    decreases events@.len() - i,
                {
                    assert(all[i as int] == events@[i as int]@);
                    if is_of_type(&events[i], kind) {
                        assert(some_of_type(all, kind@));
                        return true;
                    }
                    i = i + 1;
                }
                false
            },
            None => false,
        },
        None => false,
    }
}

/// The wish to verify that an event states.
pub open spec fn invite_of(event: crate::json::JsonView) -> Option<InviteView> {
    match (
        crate::json::text_field(event, "sender"@),
        crate::json::field(event, "content"@),
    ) {
        (Some(sender), Some(content)) => match crate::json::text_field(content, "transaction_id"@) {
            Some(transaction_id) => if crate::client::events::has_type(
                event,
                "m.key.verification.request"@,
            ) && crate::ids::user_id_valid(sender) {
                Some(InviteView { user_id: sender, transaction_id })
            } else {
                None
            },
            None => None,
        },
        _ => None,
    }
}

/// The wishes to verify in a list of events, in order.
pub open spec fn invites_in(events: Seq<crate::json::JsonView>) -> Seq<InviteView>
    decreases events.len(),
{
    if events.len() == 0 {
        Seq::empty()
    } else {
        let before = invites_in(events.drop_last());
        match invite_of(events.last()) {
            Some(i) => before.push(i),
            None => before,
        }
    }
}

/// What a list of wishes means.
pub open spec fn invite_views(invites: Seq<Invite>) -> Seq<InviteView> {
    invites.map_values(|i: Invite| i@)
}

/// The wish to verify that an event states.
fn read_invite(event: &Json) -> (r: Option<Invite>)
    ensures
        r is Some <==> invite_of(event@) is Some,
        r matches Some(i) ==> invite_of(event@) == Some(i@),
{
    if !is_of_type(event, "m.key.verification.request") {
        return None;
    }
    match (event.get_text("sender"), event.get("content")) {
        (Some(sender), Some(content)) => match content.get_text("transaction_id") {
            Some(transaction_id) => if is_user_id(sender) {
                Some(
                    Invite {
                        user_id: sender.to_owned(),
                        transaction_id: transaction_id.to_owned(),
                    },
                )
            } else {
                None
            },
            None => None,
        },
        _ => None,
    }
}

/// The wishes to verify in a sync response, in order.
pub fn sync_invites(body: &Json) -> (r: Vec<Invite>)
    ensures
        invite_views(r@) == invites_in(to_device_events(body@)),
{
    let mut out: Vec<Invite> = Vec::new();
    let ghost all = to_device_events(body@);
    assert(invite_views(out@) =~= invites_in(all.take(0)));
    match body.get2("to_device", "events") {
        Some(v) => match v.as_items() {
            Some(events) => {
                let mut i: usize = 0;
                while i < events.len()
                    invariant
                        i <= events@.len(),
                        all == crate::json::items_view(events@),
                        invite_views(out@) == invites_in(all.take(i as int)),
                    decreases events@.len() - i,
                {
                    assert(all.take(i + 1).drop_last() == all.take(i as int));
                    assert(all.take(i + 1).last() == events@[i as int]@);
                    match read_invite(&events[i]) {
                        Some(invite) => {
                            let ghost before = invite_views(out@);
                            out.push(invite);
                            assert(invite_views(out@) =~= before.push(invite@));
                        },
                        None => {},
                    }
                    i = i + 1;
                }
            },
            None => {},
        },
        None => {},
    }
    assert(all.take(all.len() as int) == all);
    out
}

/// The transactions that are known once a list of invitations was seen.
pub open spec fn invites_known(
    notified: Set<Seq<char>>,
    found: Seq<(InviteView, Seq<char>)>,
) -> Set<Seq<char>>
    decreases found.len(),
{
    if found.len() == 0 {
        notified
    } else {
        invites_known(notified, found.drop_last()).insert(found.last().0.transaction_id)
    }
}

/// What the user interface is told of a list of invitations: each with the device it
/// came from, and none twice.
pub open spec fn invites_told(
    pan_user: Seq<char>,
    notified: Set<Seq<char>>,
    found: Seq<(InviteView, Seq<char>)>,
) -> Seq<crate::messages::UiView>
    decreases found.len(),
{
    if found.len() == 0 {
        Seq::empty()
    } else {
        let before = invites_told(pan_user, notified, found.drop_last());
        let (invite, device_id) = found.last();
        if invites_known(notified, found.drop_last()).contains(invite.transaction_id) {
            before
        } else {
            before.push(
                crate::messages::UiView::SasInvite {
                    pan_user,
                    user_id: invite.user_id,
                    device_id,
                    transaction_id: invite.transaction_id,
                },
            )
        }
    }
}

/// What a list of invitations with their devices means.
pub open spec fn found_views(found: Seq<(Invite, String)>) -> Seq<(InviteView, Seq<char>)> {
    found.map_values(|f: (Invite, String)| (f.0@, f.1@))
}

/// What a list of decrypted events means.
pub open spec fn decrypted_views(decrypted: Seq<(DecryptJob, Json)>) -> Seq<
    (crate::client::events::JobView, crate::json::JsonView),
> {
    decrypted.map_values(|d: (DecryptJob, Json)| (d.0@, d.1@))
}

/// A sync response in which events have been replaced by what they say.
pub open spec fn decrypted_body(
    body: crate::json::JsonView,
    decrypted: Seq<(crate::client::events::JobView, crate::json::JsonView)>,
) -> crate::json::JsonView
    decreases decrypted.len(),
{
    if decrypted.len() == 0 {
        body
    } else {
        let before = decrypted_body(body, decrypted.drop_last());
        let (job, clear) = decrypted.last();
        crate::json::with_item(
            before,
            crate::client::events::timeline_path(job.room_id),
            job.index,
            crate::client::events::shown_event(job.event, clear),
        )
    }
}

/// What a session knows once it has seen a sync response.
pub open spec fn synced_client(
    c: crate::client::ClientView,
    body: crate::json::JsonView,
    found: Seq<(InviteView, Seq<char>)>,
) -> crate::client::ClientView {
    crate::client::ClientView {
        encrypted_rooms: c.encrypted_rooms.union(announced(body)),
        notified_invite: invites_known(c.notified_invite, found),
        ..c
    }
}

/// A timeline in which the events of a room have been replaced by what they say.
pub open spec fn shown_timeline(
    events: Seq<crate::json::JsonView>,
    decrypted: Seq<(crate::client::events::JobView, crate::json::JsonView)>,
    room: Seq<char>,
) -> Seq<crate::json::JsonView>
    decreases decrypted.len(),
{
    if decrypted.len() == 0 {
        events
    } else {
        let before = shown_timeline(events, decrypted.drop_last(), room);
        let (job, clear) = decrypted.last();
        if job.room_id == room && 0 <= job.index < before.len() {
            before.update(job.index, crate::client::events::shown_event(job.event, clear))
        } else {
            before
        }
    }
}

/// A path that leads to no timeline of a joined room, nor to one of its events.
pub open spec fn off_timelines(path: Seq<Seq<char>>) -> bool {
    ||| path.len() > 0 && path[0] != "rooms"@
    ||| path.len() > 1 && path[1] != "join"@
    ||| path.len() > 3 && path[3] != "timeline"@
    ||| path.len() > 4 && path[4] != "events"@
}

/// Rewriting a sync response changes nothing but the events in the timelines of joined
/// rooms: what stands elsewhere, such as the token of the next batch, stays.
pub proof fn sync_keeps_the_rest(
    body: crate::json::JsonView,
    decrypted: Seq<(crate::client::events::JobView, crate::json::JsonView)>,
    path: Seq<Seq<char>>,
)
    requires
        off_timelines(path),
    ensures
        crate::json::pointer(decrypted_body(body, decrypted), path) == crate::json::pointer(
            body,
            path,
        ),
    decreases decrypted.len(),
{
    if decrypted.len() > 0 {
        sync_keeps_the_rest(body, decrypted.drop_last(), path);
        let before = decrypted_body(body, decrypted.drop_last());
        let (job, clear) = decrypted.last();
        let there = crate::client::events::timeline_path(job.room_id);
        let n: int = if path[0] != "rooms"@ {
            0
        } else if path.len() > 1 && path[1] != "join"@ {
            1
        } else if path.len() > 3 && path[3] != "timeline"@ {
            3
        } else {
            4
        };
        assert(there[0] == "rooms"@ && there[1] == "join"@ && there[3] == "timeline"@ && there[4]
            == "events"@);
        crate::json::lemma_with_item_elsewhere(
            before,
            there,
            job.index,
            crate::client::events::shown_event(job.event, clear),
            path,
            n,
        );
    }
}

/// Rewriting a sync response replaces the events of each room in its timeline and
/// keeps their number.
pub proof fn sync_timelines(
    body: crate::json::JsonView,
    decrypted: Seq<(crate::client::events::JobView, crate::json::JsonView)>,
    room: Seq<char>,
)
    ensures
        crate::client::events::timeline(decrypted_body(body, decrypted), room)
            == match crate::client::events::timeline(body, room) {
            Some(events) => Some(shown_timeline(events, decrypted, room)),
            None => None,
        },
    decreases decrypted.len(),
{
    if decrypted.len() > 0 {
        sync_timelines(body, decrypted.drop_last(), room);
        let before = decrypted_body(body, decrypted.drop_last());
        let (job, clear) = decrypted.last();
        let there = crate::client::events::timeline_path(job.room_id);
        let value = crate::client::events::shown_event(job.event, clear);
        if job.room_id == room {
            crate::json::lemma_with_item_there(before, there, job.index, value);
        } else {
            let here = crate::client::events::timeline_path(room);
            assert(there[2] == job.room_id && here[2] == room);
            crate::json::lemma_with_item_elsewhere(before, there, job.index, value, here, 2);
        }
    }
}

/// A client sees, for each event of a joined room, what it says where it was decrypted,
/// and the event itself where it was not.
pub proof fn sync_shows_events(
    body: crate::json::JsonView,
    decrypted: Seq<(crate::client::events::JobView, crate::json::JsonView)>,
    room: Seq<char>,
    index: int,
)
    requires
        forall|k: int|
            0 <= k < decrypted.len() ==> crate::client::events::is_job(
                (#[trigger] decrypted[k]).0,
                body,
            ),
        forall|k: int, l: int|
            0 <= k < l < decrypted.len() ==> (#[trigger] decrypted[k]).0.room_id != (
            #[trigger] decrypted[l]).0.room_id || decrypted[k].0.index != decrypted[l].0.index,
        crate::client::events::timeline(body, room) is Some,
        0 <= index < crate::client::events::timeline(body, room).unwrap().len(),
    ensures
        ({
            let before = crate::client::events::timeline(body, room).unwrap();
            let after = crate::client::events::timeline(decrypted_body(body, decrypted), room);
            &&& after is Some
            &&& after.unwrap().len() == before.len()
            &&& forall|k: int|
                0 <= k < decrypted.len() && crate::client::events::at_place(
                    (#[trigger] decrypted[k]).0,
                    room,
                    index,
                ) ==> after.unwrap()[index] == crate::client::events::shown_event(
                    before[index],
                    decrypted[k].1,
                )
            &&& (forall|k: int|
                0 <= k < decrypted.len() ==> !crate::client::events::at_place(
                    (#[trigger] decrypted[k]).0,
                    room,
                    index,
                )) ==> after.unwrap()[index] == before[index]
        }),
{
    sync_timelines(body, decrypted, room);
    lemma_shown(
        body,
        crate::client::events::timeline(body, room).unwrap(),
        decrypted,
        room,
        index,
    );
}

/// A sync shows each event of a joined room as its history does: what `decrypt_event` gives
/// for an encrypted event that opens, and else the event itself. `opens` says what the
/// crypto machine makes of an event of a room.
pub proof fn sync_agrees_with_history(
    body: crate::json::JsonView,
    jobs: Seq<crate::client::events::JobView>,
    opens: spec_fn(Seq<char>, crate::json::JsonView) -> Option<crate::json::JsonView>,
    room: Seq<char>,
    index: int,
)
    requires
        crate::client::events::lists_jobs(jobs, body),
        crate::client::events::timeline(body, room) is Some,
        0 <= index < crate::client::events::timeline(body, room).unwrap().len(),
    ensures
        ({
            let event = crate::client::events::timeline(body, room).unwrap()[index];
            let shown = crate::client::events::event_shown(room, event, opens(room, event));
            let after = crate::client::events::timeline(
                decrypted_body(body, crate::client::events::opened_jobs(jobs, opens)),
                room,
            );
            &&& after is Some
            &&& after.unwrap()[index] == if crate::client::events::encrypted_event(event)
                && shown is Some {
                shown.unwrap()
            } else {
                event
            }
        }),
{
    let decrypted = crate::client::events::opened_jobs(jobs, opens);
    let event = crate::client::events::timeline(body, room).unwrap()[index];
    crate::client::events::lemma_opened_jobs(jobs, opens);
    assert forall|k: int| 0 <= k < decrypted.len() implies crate::client::events::is_job(
        (#[trigger] decrypted[k]).0,
        body,
    ) by {
        let j = choose|j: int| 0 <= j < jobs.len() && jobs[j] == decrypted[k].0;
        assert(crate::client::events::is_job(jobs[j], body));
    }
    sync_shows_events(body, decrypted, room, index);
    if crate::client::events::wanted(body, room, index) && opens(room, event) is Some {
        let j = choose|j: int|
            0 <= j < jobs.len() && crate::client::events::at_place(jobs[j], room, index);
        assert(crate::client::events::is_job(jobs[j], body));
        assert(jobs[j].event == event);
        let found = (jobs[j], opens(room, event).unwrap());
        assert(decrypted.contains(found));
        let k = choose|k: int| 0 <= k < decrypted.len() && decrypted[k] == found;
        assert(crate::client::events::at_place(decrypted[k].0, room, index));
    } else {
        assert forall|k: int| 0 <= k < decrypted.len() implies !crate::client::events::at_place(
            (#[trigger] decrypted[k]).0,
            room,
            index,
        ) by {
            assert(crate::client::events::is_job(decrypted[k].0, body));
        }
    }
}

/// What stands at a place of a timeline in which events have been replaced.
proof fn lemma_shown(
    body: crate::json::JsonView,
    events: Seq<crate::json::JsonView>,
    decrypted: Seq<(crate::client::events::JobView, crate::json::JsonView)>,
    room: Seq<char>,
    index: int,
)
    requires
        crate::client::events::timeline(body, room) == Some(events),
        0 <= index < events.len(),
        forall|k: int|
            0 <= k < decrypted.len() ==> crate::client::events::is_job(
                (#[trigger] decrypted[k]).0,
                body,
            ),
        forall|k: int, l: int|
            0 <= k < l < decrypted.len() ==> (#[trigger] decrypted[k]).0.room_id != (
            #[trigger] decrypted[l]).0.room_id || decrypted[k].0.index != decrypted[l].0.index,
    ensures
        shown_timeline(events, decrypted, room).len() == events.len(),
        forall|k: int|
            0 <= k < decrypted.len() && crate::client::events::at_place(
                (#[trigger] decrypted[k]).0,
                room,
                index,
            ) ==> shown_timeline(events, decrypted, room)[index]
                == crate::client::events::shown_event(events[index], decrypted[k].1),
        (forall|k: int|
            0 <= k < decrypted.len() ==> !crate::client::events::at_place(
                (#[trigger] decrypted[k]).0,
                room,
                index,
            )) ==> shown_timeline(events, decrypted, room)[index] == events[index],
    decreases decrypted.len(),
{
    if decrypted.len() > 0 {
        let before = decrypted.drop_last();
        assert forall|k: int| 0 <= k < before.len() implies crate::client::events::is_job(
            (#[trigger] before[k]).0,
            body,
        ) by {
            assert(before[k] == decrypted[k]);
        }
        assert forall|k: int, l: int| 0 <= k < l < before.len() implies (
        #[trigger] before[k]).0.room_id != (#[trigger] before[l]).0.room_id || before[k].0.index
            != before[l].0.index by {
            assert(before[k] == decrypted[k] && before[l] == decrypted[l]);
        }
        lemma_shown(body, events, before, room, index);
        let last = decrypted.last();
        let n = decrypted.len() - 1;
        assert(crate::client::events::is_job(decrypted[n].0, body));
        if crate::client::events::at_place(last.0, room, index) {
            assert forall|k: int|
                0 <= k < decrypted.len() && crate::client::events::at_place(
                    (#[trigger] decrypted[k]).0,
                    room,
                    index,
                ) implies k == n by {
                if k < n {
                    assert(decrypted[k].0.room_id != decrypted[n].0.room_id
                        || decrypted[k].0.index != decrypted[n].0.index);
                }
            }
        } else {
            assert forall|k: int|
                0 <= k < decrypted.len() && crate::client::events::at_place(
                    (#[trigger] decrypted[k]).0,
                    room,
                    index,
                ) implies shown_timeline(events, decrypted, room)[index]
                == crate::client::events::shown_event(events[index], decrypted[k].1) by {
                assert(before[k] == decrypted[k]);
            }
            if forall|k: int|
                0 <= k < decrypted.len() ==> !crate::client::events::at_place(
                    (#[trigger] decrypted[k]).0,
                    room,
                    index,
                ) {
                assert forall|k: int|
                    0 <= k < before.len() implies !crate::client::events::at_place(
                    (#[trigger] before[k]).0,
                    room,
                    index,
                ) by {
                    assert(before[k] == decrypted[k]);
                }
            }
        }
    }
}

/// A transaction is known once it was seen, and stays known.
proof fn lemma_invites_known(
    notified: Set<Seq<char>>,
    found: Seq<(InviteView, Seq<char>)>,
    transaction: Seq<char>,
)
    ensures
        notified.contains(transaction) ==> invites_known(notified, found).contains(transaction),
        forall|i: int|
            0 <= i < found.len() ==> invites_known(notified, found).contains(
                (#[trigger] found[i]).0.transaction_id,
            ),
    decreases found.len(),
{
    if found.len() > 0 {
        let before = found.drop_last();
        lemma_invites_known(notified, before, transaction);
        assert forall|i: int| 0 <= i < found.len() implies invites_known(notified, found).contains(
            (#[trigger] found[i]).0.transaction_id,
        ) by {
            if i < before.len() {
                assert(before[i] == found[i]);
            }
        }
    }
}

/// The user interface is told of an invitation once: of one that it was told of, never
/// again.
pub proof fn invites_told_once(
    pan_user: Seq<char>,
    notified: Set<Seq<char>>,
    found: Seq<(InviteView, Seq<char>)>,
)
    ensures
        invites_told(pan_user, invites_known(notified, found), found) == Seq::<
            crate::messages::UiView,
        >::empty(),
        forall|i: int|
            0 <= i < invites_told(pan_user, notified, found).len() ==> !notified.contains(
                (#[trigger] invites_told(
                    pan_user,
                    notified,
                    found,
                )[i])->SasInvite_transaction_id,
            ),
        forall|i: int, j: int|
            0 <= i < j < invites_told(pan_user, notified, found).len() ==> (
            #[trigger] invites_told(pan_user, notified, found)[i])->SasInvite_transaction_id != (
            #[trigger] invites_told(pan_user, notified, found)[j])->SasInvite_transaction_id,
{
    lemma_invites_known(notified, found, Seq::empty());
    lemma_nothing_told(pan_user, invites_known(notified, found), found);
    lemma_told_new(pan_user, notified, found);
}

/// Of known invitations nothing is told.
proof fn lemma_nothing_told(
    pan_user: Seq<char>,
    known: Set<Seq<char>>,
    found: Seq<(InviteView, Seq<char>)>,
)
    requires
        forall|i: int|
            0 <= i < found.len() ==> known.contains((#[trigger] found[i]).0.transaction_id),
    ensures
        invites_told(pan_user, known, found) == Seq::<crate::messages::UiView>::empty(),
    decreases found.len(),
{
    if found.len() > 0 {
        let before = found.drop_last();
        assert forall|i: int| 0 <= i < before.len() implies known.contains(
            (#[trigger] before[i]).0.transaction_id,
        ) by {
            assert(before[i] == found[i]);
        }
        lemma_nothing_told(pan_user, known, before);
        lemma_invites_known(known, before, found.last().0.transaction_id);
        assert(found[found.len() - 1] == found.last());
    }
}

/// What is told is new, and each of it is told once.
proof fn lemma_told_new(
    pan_user: Seq<char>,
    notified: Set<Seq<char>>,
    found: Seq<(InviteView, Seq<char>)>,
)
    ensures
        forall|i: int|
            0 <= i < invites_told(pan_user, notified, found).len() ==> {
                let told = #[trigger] invites_told(pan_user, notified, found)[i];
                &&& told is SasInvite
                &&& !notified.contains(told->SasInvite_transaction_id)
                &&& invites_known(notified, found).contains(told->SasInvite_transaction_id)
            },
        forall|i: int, j: int|
            0 <= i < j < invites_told(pan_user, notified, found).len() ==> (
            #[trigger] invites_told(pan_user, notified, found)[i])->SasInvite_transaction_id != (
            #[trigger] invites_told(pan_user, notified, found)[j])->SasInvite_transaction_id,
    decreases found.len(),
{
    if found.len() > 0 {
        let before = found.drop_last();
        lemma_told_new(pan_user, notified, before);
        lemma_invites_known(notified, before, found.last().0.transaction_id);
        let told_before = invites_told(pan_user, notified, before);
        let told = invites_told(pan_user, notified, found);
        assert forall|i: int| 0 <= i < told.len() implies {
            &&& (#[trigger] told[i]) is SasInvite
            &&& !notified.contains(told[i]->SasInvite_transaction_id)
            &&& invites_known(notified, found).contains(told[i]->SasInvite_transaction_id)
        } by {
            if i < told_before.len() {
                assert(told[i] == told_before[i]);
            }
        }
        assert forall|i: int, j: int| 0 <= i < j < told.len() implies (
        #[trigger] told[i])->SasInvite_transaction_id != (
        #[trigger] told[j])->SasInvite_transaction_id by {
            assert(told[i] == told_before[i]);
            if j < told_before.len() {
                assert(told[j] == told_before[j]);
            }
        }
    }
}

/// Replaces events in a sync response by what they say.
fn show_decrypted(body: &mut Json, decrypted: &Vec<(DecryptJob, Json)>)
    requires
        forall|k: int|
            0 <= k < decrypted@.len() ==> (#[trigger] decrypted@[k]).1@ is Object
                || decrypted@[k].1@ is Null,
    ensures
        final(body)@ == decrypted_body(old(body)@, decrypted_views(decrypted@)),
{
    let ghost all = decrypted_views(decrypted@);
    let ghost start = body@;
    let mut k: usize = 0;
    assert(decrypted_body(start, all.take(0)) == start);
    while k < decrypted.len()
        invariant
            k <= decrypted@.len(),
            all == decrypted_views(decrypted@),
            forall|k: int|
                0 <= k < decrypted@.len() ==> (#[trigger] decrypted@[k]).1@ is Object
                    || decrypted@[k].1@ is Null,
            body@ == decrypted_body(start, all.take(k as int)),
        decreases decrypted@.len() - k,
    {
        assert(all.take(k + 1).drop_last() == all.take(k as int));
        assert(all.take(k + 1).last() == all[k as int]);
        let job = &decrypted[k].0;
        let clear = decrypted[k].1.copy();
        let event = show_event(&job.event, clear);
        let path = crate::client::events::timeline_keys(job.room_id.as_str());
        assert(crate::text::views(path@).skip(0) == crate::text::views(path@));
        body.set_item(&path, 0, job.index, event);
        k = k + 1;
    }
    assert(all.take(k as int) == all);
}

impl PanClient {
    /// Notes the rooms that a sync response says are encrypted.
    pub fn track_encrypted_rooms(&mut self, body: &Json)
        ensures
            final(self)@ == (crate::client::ClientView {
                encrypted_rooms: old(self)@.encrypted_rooms.union(announced(body@)),
                ..old(self)@
            }),
    {
        let ghost before = self@;
        let join = match body.get2("rooms", "join") {
            Some(join) => join,
            None => {
                assert(announced(body@) =~= Set::empty());
                assert(before.encrypted_rooms.union(announced(body@)) =~= before.encrypted_rooms);
                return;
            },
        };
        let rooms = join.keys();
        let mut i: usize = 0;
        while i < rooms.len()
            invariant
                i <= rooms@.len(),
                crate::json::field2(body@, "rooms"@, "join"@) == Some(join@),
                self@ == (crate::client::ClientView {
                    encrypted_rooms: self@.encrypted_rooms,
                    ..before
                }),
                forall|room: Seq<char>| #[trigger]
                    self@.encrypted_rooms.contains(room) ==> before.encrypted_rooms.contains(room)
                        || announces(body@, room),
                forall|room: Seq<char>|
                    before.encrypted_rooms.contains(room) ==> #[trigger] self@.encrypted_rooms.contains(
                        room,
                    ),
                forall|j: int|
                    0 <= j < i && announces(body@, (#[trigger] rooms@[j])@)
                        ==> self@.encrypted_rooms.contains(rooms@[j]@),
            decreases rooms@.len() - i,
        {
            let room = rooms[i].as_str();
            match join.get(room) {
                Some(data) => {
                    if has_in_section(data, "state", "m.room.encryption") || has_in_section(
                        data,
                        "timeline",
                        "m.room.encryption",
                    ) {
                        self.mark_room_encrypted(room);
                    }
                },
                None => {},
            }
            i = i + 1;
        }
        proof {
            assert forall|room: Seq<char>|
                before.encrypted_rooms.union(announced(body@)).contains(room)
                    == self@.encrypted_rooms.contains(room) by {
                if announces(body@, room) {
                    assert(crate::json::field(join@, room) is Some);
                    let j = choose|j: int| 0 <= j < rooms@.len() && rooms@[j]@ == room;
                    assert(announces(body@, rooms@[j]@));
                }
            }
            assert(self@.encrypted_rooms =~= before.encrypted_rooms.union(announced(body@)));
        }
    }

    /// Notes the invitations to verify that the crypto machine knows of, each with the
    /// device it came from, and tells the user interface of the new ones.
    pub fn note_invites(&mut self, found: &Vec<(Invite, String)>) -> (r: Vec<DaemonToUi>)
        ensures
            final(self)@ == (crate::client::ClientView {
                notified_invite: invites_known(
                    old(self)@.notified_invite,
                    found_views(found@),
                ),
                ..old(self)@
            }),
            crate::messages::ui_views(r@) == invites_told(
                old(self)@.user_id,
                old(self)@.notified_invite,
                found_views(found@),
            ),
    {
        let ghost before = self@;
        let ghost all = found_views(found@);
        let mut out: Vec<DaemonToUi> = Vec::new();
        let mut i: usize = 0;
        assert(crate::messages::ui_views(out@) =~= invites_told(
            before.user_id,
            before.notified_invite,
            all.take(0),
        ));
        assert(invites_known(before.notified_invite, all.take(0)) == before.notified_invite);
        while i < found.len()
            invariant
                i <= found@.len(),
                all == found_views(found@),
                self@ == (crate::client::ClientView {
                    notified_invite: invites_known(before.notified_invite, all.take(i as int)),
                    ..before
                }),
                crate::messages::ui_views(out@) == invites_told(
                    before.user_id,
                    before.notified_invite,
                    all.take(i as int),
                ),
            decreases found@.len() - i,
        {
            assert(all.take(i + 1).drop_last() == all.take(i as int));
            assert(all.take(i + 1).last() == all[i as int]);
            let invite = &found[i].0;
            let ghost told = crate::messages::ui_views(out@);
            if !self.was_invited(invite.transaction_id.as_str()) {
                let message = DaemonToUi::SasInvite {
                    pan_user: self.user().to_owned(),
                    user_id: invite.user_id.clone(),
                    device_id: found[i].1.clone(),
                    transaction_id: invite.transaction_id.clone(),
                };
                self.mark_invited(invite.transaction_id.as_str());
                out.push(message);
                assert(crate::messages::ui_views(out@) =~= told.push(message@));
            } else {
                let ghost known = invites_known(before.notified_invite, all.take(i as int));
                assert(known.insert(invite.transaction_id@) =~= known);
            }
            i = i + 1;
        }
        assert(all.take(i as int) == all);
        out
    }

    /// Rewrites a sync response: encrypted events become what they say. The session
    /// notes the rooms that are encrypted and the invitations to verify, and the user
    /// interface is told of the new ones.
    pub fn process_sync(
        &mut self,
        body: &mut Json,
        decrypted: &Vec<(DecryptJob, Json)>,
        found: &Vec<(Invite, String)>,
    ) -> (r: Vec<DaemonToUi>)
        requires
            forall|k: int|
                0 <= k < decrypted@.len() ==> (#[trigger] decrypted@[k]).1@ is Object
                    || decrypted@[k].1@ is Null,
        ensures
            final(self)@ == synced_client(old(self)@, old(body)@, found_views(found@)),
            final(body)@ == decrypted_body(old(body)@, decrypted_views(decrypted@)),
            crate::messages::ui_views(r@) == invites_told(
                old(self)@.user_id,
                old(self)@.notified_invite,
                found_views(found@),
            ),
    {
        self.track_encrypted_rooms(body);
        show_decrypted(body, decrypted);
        self.note_invites(found)
    }
}

} // verus!
