//! Encrypted events inside the JSON that the homeserver sends.

use vstd::prelude::*;
use crate::client::PanClient;
use crate::ids::is_room_id;
use crate::json::Json;
use crate::text::same;

verus! {

/// An encrypted event and its place: a room, and the number of the event in the room.
#[derive(Debug)]
pub struct DecryptJob {
    pub room_id: String,
    pub index: usize,
    pub event: Json,
}

/// What a job means.
#[verifier::ext_equal]
pub struct JobView {
    pub room_id: Seq<char>,
    pub index: int,
    pub event: crate::json::JsonView,
}

impl View for DecryptJob {
    type V = JobView;

    open spec fn view(&self) -> JobView {
        JobView { room_id: self.room_id@, index: self.index as int, event: self.event@ }
    }
}

/// Whether an event has a type.
pub open spec fn has_type(event: crate::json::JsonView, kind: Seq<char>) -> bool {
    crate::json::text_field(event, "type"@) == Some(kind)
}

/// Whether an event is encrypted.
pub open spec fn encrypted_event(event: crate::json::JsonView) -> bool {
    has_type(event, "m.room.encrypted"@)
}

/// Whether an event has a type.
pub fn is_of_type(event: &Json, kind: &str) -> (r: bool)
    ensures
        r == has_type(event@, kind@),
{
    match event.get_text("type") {
        Some(t) => same(t, kind),
        None => false,
    }
}

/// `clear` with the field of `event` under `key`, where it has one.
pub open spec fn keep_field(
    clear: crate::json::JsonView,
    event: crate::json::JsonView,
    key: Seq<char>,
) -> crate::json::JsonView {
    match crate::json::field(event, key) {
        Some(v) => crate::json::with_field(clear, key, v),
        None => clear,
    }
}

/// What a client is shown for an encrypted event: the decrypted event, with what the
/// homeserver says about the encrypted one.
pub open spec fn shown_event(
    event: crate::json::JsonView,
    clear: crate::json::JsonView,
) -> crate::json::JsonView {
    let c1 = keep_field(clear, event, "event_id"@);
    let c2 = keep_field(c1, event, "origin_server_ts"@);
    let c3 = keep_field(c2, event, "sender"@);
    let c4 = keep_field(c3, event, "room_id"@);
    keep_field(c4, event, "unsigned"@)
}

/// Whether the homeserver says what stands under a key.
pub open spec fn kept_key(key: Seq<char>) -> bool {
    ||| key == "event_id"@
    ||| key == "origin_server_ts"@
    ||| key == "sender"@
    ||| key == "room_id"@
    ||| key == "unsigned"@
}

/// What a client is shown for an encrypted event of a room, given what the event decrypts
/// to, if it does.
pub open spec fn event_shown(
    room: Seq<char>,
    event: crate::json::JsonView,
    clear: Option<crate::json::JsonView>,
) -> Option<crate::json::JsonView> {
    match clear {
        Some(c) => if crate::ids::room_id_valid(room) {
            Some(shown_event(event, c))
        } else {
            None
        },
        None => None,
    }
}

/// A decrypted event is shown with what the homeserver says about the encrypted one, as far
/// as it says something, and else with its own fields.
pub proof fn homeserver_fields_kept(
    event: crate::json::JsonView,
    clear: crate::json::JsonView,
    key: Seq<char>,
)
    requires
        clear is Object || clear is Null,
    ensures
        crate::json::field(shown_event(event, clear), key) == if kept_key(key)
            && crate::json::field(event, key) is Some {
            crate::json::field(event, key)
        } else {
            crate::json::field(clear, key)
        },
{
}

/// Copies the field of `event` under `key` to `clear`.
fn copy_field(clear: &mut Json, event: &Json, key: &str)
    requires
        old(clear)@ is Object || old(clear)@ is Null,
    ensures
        final(clear)@ == keep_field(old(clear)@, event@, key@),
        final(clear)@ is Object || final(clear)@ is Null,
{
    match event.get(key) {
        Some(v) => {
            let value = v.copy();
            clear.set(key, value);
        },
        None => {},
    }
}

/// What a client is shown for an encrypted event.
pub fn show_event(event: &Json, clear: Json) -> (r: Json)
    requires
        clear@ is Object || clear@ is Null,
    ensures
        r@ == shown_event(event@, clear@),
{
    let mut clear = clear;
    copy_field(&mut clear, event, "event_id");
    copy_field(&mut clear, event, "origin_server_ts");
    copy_field(&mut clear, event, "sender");
    copy_field(&mut clear, event, "room_id");
    copy_field(&mut clear, event, "unsigned");
    clear
}

impl PanClient {
    /// What a client is shown for an encrypted event of a room, given what the event
    /// decrypts to, if it does; nothing where the room cannot be one.
    pub fn decrypt_event(room_id: &str, event: &Json, clear: Option<Json>) -> (r: Option<Json>)
        requires
            clear matches Some(c) ==> c@ is Object || c@ is Null,
        ensures
            crate::client::sync::optional_json(r) == event_shown(
                room_id@,
                event@,
                crate::client::sync::optional_json(clear),
            ),
    {
        if !is_room_id(room_id) {
            return None;
        }
        match clear {
            Some(c) => Some(show_event(event, c)),
            None => None,
        }
    }
}

/// The path to the timeline of a joined room in a sync response.
pub open spec fn timeline_path(room: Seq<char>) -> Seq<Seq<char>> {
    seq!["rooms"@, "join"@, room, "timeline"@, "events"@]
}

/// The array that a path of keys leads to.
pub open spec fn array_at(body: crate::json::JsonView, path: Seq<Seq<char>>) -> Option<
    Seq<crate::json::JsonView>,
> {
    match crate::json::pointer(body, path) {
        Some(v) => crate::json::items_of(v),
        None => None,
    }
}

/// The timeline of a joined room in a sync response.
pub open spec fn timeline(body: crate::json::JsonView, room: Seq<char>) -> Option<
    Seq<crate::json::JsonView>,
> {
    array_at(body, timeline_path(room))
}

/// Whether there is an encrypted event at a place in a sync response.
pub open spec fn wanted(body: crate::json::JsonView, room: Seq<char>, index: int) -> bool {
    &&& crate::ids::room_id_valid(room)
    &&& timeline(body, room) matches Some(events)
    &&& 0 <= index < events.len()
    &&& encrypted_event(events[index])
}

/// Whether a list of places holds those of the encrypted events in a list, in order.
pub open spec fn lists_encrypted(
    places: Seq<usize>,
    events: Seq<crate::json::JsonView>,
) -> bool {
    &&& forall|k: int|
        0 <= k < places.len() ==> (#[trigger] places[k]) < events.len() && encrypted_event(
            events[places[k] as int],
        )
    &&& forall|i: int|
        0 <= i < events.len() && encrypted_event(#[trigger] events[i]) ==> exists|k: int|
            0 <= k < places.len() && places[k] == i
    &&& forall|k: int, l: int| 0 <= k < l < places.len() ==> places[k] < places[l]
}

/// The places of the encrypted events in a list.
pub fn encrypted_places(events: &Vec<Json>) -> (r: Vec<usize>)
    ensures
        lists_encrypted(r@, crate::json::items_view(events@)),
{
    let mut out: Vec<usize> = Vec::new();
    let ghost all = crate::json::items_view(events@);
    let mut i: usize = 0;
    while i < events.len()
        invariant
            i <= events@.len(),
            all == crate::json::items_view(events@),
            forall|k: int|
                0 <= k < out@.len() ==> (#[trigger] out@[k]) < i && encrypted_event(
                    all[out@[k] as int],
                ),
            forall|j: int|
                0 <= j < i && encrypted_event(#[trigger] all[j]) ==> exists|k: int|
                    0 <= k < out@.len() && out@[k] == j,
            forall|k: int, l: int| 0 <= k < l < out@.len() ==> out@[k] < out@[l],
        decreases events@.len() - i,
    {
        let ghost before = out@;
        assert(all[i as int] == events@[i as int]@);
        if is_of_type(&events[i], "m.room.encrypted") {
            out.push(i);
            assert(out@[before.len() as int] == i);
        }
        assert forall|j: int| 0 <= j < i + 1 && encrypted_event(#[trigger] all[j]) implies exists|
            k: int,
        | 0 <= k < out@.len() && out@[k] == j by {
            if j < i {
                let k = choose|k: int| 0 <= k < before.len() && before[k] == j;
                assert(out@[k] == j);
            }
        }
        i = i + 1;
    }
    out
}

/// Whether a list of jobs holds the encrypted events of a sync response, each once.
pub open spec fn lists_jobs(jobs: Seq<JobView>, body: crate::json::JsonView) -> bool {
    &&& forall|k: int| 0 <= k < jobs.len() ==> #[trigger] is_job(jobs[k], body)
    &&& forall|room: Seq<char>, i: int| #[trigger]
        wanted(body, room, i) ==> exists|k: int| 0 <= k < jobs.len() && at_place(jobs[k], room, i)
    &&& distinct_places(jobs)
}

/// Whether a job is that of an encrypted event in a sync response.
pub open spec fn is_job(job: JobView, body: crate::json::JsonView) -> bool {
    &&& wanted(body, job.room_id, job.index)
    &&& timeline(body, job.room_id).unwrap()[job.index] == job.event
}

/// Whether a job is for a place.
pub open spec fn at_place(job: JobView, room: Seq<char>, index: int) -> bool {
    job.room_id == room && job.index == index
}

/// Whether no two jobs are for one place.
pub open spec fn distinct_places(jobs: Seq<JobView>) -> bool {
    forall|k: int, l: int|
        0 <= k < l < jobs.len() ==> (#[trigger] jobs[k]).room_id != (#[trigger] jobs[l]).room_id
            || jobs[k].index != jobs[l].index
}

/// The events of a list of jobs that can be decrypted, each with what it decrypts to.
/// `opens` says what that is for an event of a room.
pub open spec fn opened_jobs(
    jobs: Seq<JobView>,
    opens: spec_fn(Seq<char>, crate::json::JsonView) -> Option<crate::json::JsonView>,
) -> Seq<(JobView, crate::json::JsonView)>
    decreases jobs.len(),
{
    if jobs.len() == 0 {
        Seq::empty()
    } else {
        let before = opened_jobs(jobs.drop_last(), opens);
        let job = jobs.last();
        match opens(job.room_id, job.event) {
            Some(clear) => before.push((job, clear)),
            None => before,
        }
    }
}

/// The events that can be decrypted are those of the list that open, each once.
pub proof fn lemma_opened_jobs(
    jobs: Seq<JobView>,
    opens: spec_fn(Seq<char>, crate::json::JsonView) -> Option<crate::json::JsonView>,
)
    requires
        distinct_places(jobs),
    ensures
        forall|k: int|
            0 <= k < opened_jobs(jobs, opens).len() ==> {
                let (job, clear) = #[trigger] opened_jobs(jobs, opens)[k];
                &&& jobs.contains(job)
                &&& opens(job.room_id, job.event) == Some(clear)
            },
        forall|j: int|
            0 <= j < jobs.len() && opens((#[trigger] jobs[j]).room_id, jobs[j].event) is Some
                ==> opened_jobs(jobs, opens).contains(
                (jobs[j], opens(jobs[j].room_id, jobs[j].event).unwrap()),
            ),
        forall|k: int, l: int|
            0 <= k < l < opened_jobs(jobs, opens).len() ==> (
            #[trigger] opened_jobs(jobs, opens)[k]).0.room_id != (#[trigger] opened_jobs(
                jobs,
                opens,
            )[l]).0.room_id || opened_jobs(jobs, opens)[k].0.index != opened_jobs(
                jobs,
                opens,
            )[l].0.index,
    decreases jobs.len(),
{
    if jobs.len() > 0 {
        let less = jobs.drop_last();
        let job = jobs.last();
        let n = jobs.len() - 1;
        assert(jobs[n] == job);
        assert(distinct_places(less)) by {
            assert forall|k: int, l: int| 0 <= k < l < less.len() implies (
            #[trigger] less[k]).room_id != (#[trigger] less[l]).room_id || less[k].index
                != less[l].index by {
                assert(less[k] == jobs[k] && less[l] == jobs[l]);
            }
        }
        lemma_opened_jobs(less, opens);
        let before = opened_jobs(less, opens);
        let all = opened_jobs(jobs, opens);
        assert forall|k: int| 0 <= k < all.len() implies {
            &&& jobs.contains((#[trigger] all[k]).0)
            &&& opens(all[k].0.room_id, all[k].0.event) == Some(all[k].1)
        } by {
            if k < before.len() {
                assert(all[k] == before[k]);
                let j = choose|j: int| 0 <= j < less.len() && less[j] == before[k].0;
                assert(jobs[j] == all[k].0);
            }
        }
        assert forall|j: int|
            0 <= j < jobs.len() && opens(
                (#[trigger] jobs[j]).room_id,
                jobs[j].event,
            ) is Some implies all.contains(
            (jobs[j], opens(jobs[j].room_id, jobs[j].event).unwrap()),
        ) by {
            let wanted = (jobs[j], opens(jobs[j].room_id, jobs[j].event).unwrap());
            if j < n {
                assert(less[j] == jobs[j]);
                let k = choose|k: int| 0 <= k < before.len() && before[k] == wanted;
                assert(all[k] == wanted);
            } else {
                assert(all[all.len() - 1] == wanted);
            }
        }
        assert forall|k: int, l: int| 0 <= k < l < all.len() implies (#[trigger] all[k]).0.room_id
            != (#[trigger] all[l]).0.room_id || all[k].0.index != all[l].0.index by {
            assert(all[k] == before[k]);
            if l < before.len() {
                assert(all[l] == before[l]);
            } else {
                let j = choose|j: int| 0 <= j < less.len() && less[j] == before[k].0;
                assert(jobs[j] == all[k].0 && all[l].0 == jobs[n]);
            }
        }
    }
}

/// What a list of jobs means.
pub open spec fn job_views(jobs: Seq<DecryptJob>) -> Seq<JobView> {
    jobs.map_values(|j: DecryptJob| j@)
}

/// The path to the timeline of a joined room.
pub(crate) fn timeline_keys<'a>(room: &'a str) -> (r: Vec<&'a str>)
    ensures
        crate::text::views(r@) == timeline_path(room@),
{
    let mut path: Vec<&'a str> = Vec::new();
    path.push("rooms");
    path.push("join");
    path.push(room);
    path.push("timeline");
    path.push("events");
    assert(crate::text::views(path@) =~= timeline_path(room@));
    path
}

/// A room with a timeline is one of the joined rooms.
proof fn lemma_joined(body: crate::json::JsonView, room: Seq<char>)
    requires
        timeline(body, room) is Some,
    ensures
        crate::json::field2(body, "rooms"@, "join"@) matches Some(join) && crate::json::field(
            join,
            room,
        ) is Some,
{
    let p = timeline_path(room);
    let p1 = p.drop_first();
    let p2 = p1.drop_first();
    assert(p[0] == "rooms"@);
    assert(p1[0] == "join"@);
    assert(p2[0] == room);
    let rooms = crate::json::field(body, p[0]);
    assert(rooms is Some);
    assert(crate::json::pointer(rooms.unwrap(), p1) is Some);
    let join = crate::json::field(rooms.unwrap(), p1[0]);
    assert(join is Some);
    assert(crate::json::pointer(join.unwrap(), p2) is Some);
}

/// The encrypted events of a sync response.
pub fn decrypt_jobs(body: &Json) -> (r: Vec<DecryptJob>)
    ensures
        lists_jobs(job_views(r@), body@),
{
    let mut out: Vec<DecryptJob> = Vec::new();
    let join = match body.get2("rooms", "join") {
        Some(join) => join,
        None => {
            proof {
                assert forall|room: Seq<char>, i: int| #[trigger]
                    wanted(body@, room, i) implies exists|k: int|
                    0 <= k < job_views(out@).len() && at_place(job_views(out@)[k], room, i) by {
                    lemma_joined(body@, room);
                }
            }
            return out;
        },
    };
    let rooms = join.keys();
    let ghost b = body@;
    let mut n: usize = 0;
    while n < rooms.len()
        invariant
            n <= rooms@.len(),
            b == body@,
            forall|i: int, j: int| 0 <= i < j < rooms@.len() ==> rooms@[i]@ != rooms@[j]@,
            forall|k: int| 0 <= k < out@.len() ==> #[trigger] is_job(out@[k]@, b),
            forall|k: int|
                0 <= k < out@.len() ==> exists|m: int|
                    0 <= m < n && rooms@[m]@ == (#[trigger] out@[k]).room_id@,
            forall|m: int, i: int|
                0 <= m < n && #[trigger] wanted(b, rooms@[m]@, i) ==> exists|k: int|
                    0 <= k < out@.len() && #[trigger] at_place(out@[k]@, rooms@[m]@, i),
            forall|k: int, l: int|
                0 <= k < l < out@.len() ==> (#[trigger] out@[k]).room_id@ != (
                #[trigger] out@[l]).room_id@ || out@[k].index != out@[l].index,
        decreases rooms@.len() - n,
    {
        let room = rooms[n].as_str();
        let ghost before = out@;
        let ghost start = out@.len() as int;
        if is_room_id(room) {
            let path = timeline_keys(room);
            assert(crate::text::views(path@).skip(0) == timeline_path(room@));
            match body.pointer(&path, 0) {
                Some(v) => match v.as_items() {
                    Some(events) => {
                        let places = encrypted_places(events);
                        let ghost all = crate::json::items_view(events@);
                        let mut p: usize = 0;
                        while p < places.len()
                            invariant
                                p <= places@.len(),
                                n < rooms@.len(),
                                room@ == rooms@[n as int]@,
                                b == body@,
                                timeline(b, room@) == Some(all),
                                crate::ids::room_id_valid(room@),
                                all == crate::json::items_view(events@),
                                lists_encrypted(places@, all),
                                start == before.len(),
                                out@.len() == start + p,
                                forall|k: int|
                                    0 <= k < start ==> (#[trigger] out@[k]) == before[k],
                                forall|q: int|
                                    0 <= q < p ==> (#[trigger] out@[start + q])@ == (JobView {
                                        room_id: room@,
                                        index: places@[q] as int,
                                        event: all[places@[q] as int],
                                    }),
                            decreases places@.len() - p,
                        {
                            let index = places[p];
                            assert(all[index as int] == events@[index as int]@);
                            out.push(
                                DecryptJob {
                                    room_id: room.to_owned(),
                                    index,
                                    event: events[index].copy(),
                                },
                            );
                            p = p + 1;
                        }
                        proof {
                            assert forall|k: int| 0 <= k < out@.len() implies #[trigger] is_job(
                                out@[k]@,
                                b,
                            ) by {
                                if k < start {
                                    assert(is_job(before[k]@, b));
                                } else {
                                    assert(out@[start + (k - start)] == out@[k]);
                                }
                            }
                            assert forall|k: int| 0 <= k < out@.len() implies exists|m: int|
                                0 <= m < n + 1 && rooms@[m]@ == (#[trigger] out@[k]).room_id@ by {
                                if k < start {
                                    let m = choose|m: int|
                                        0 <= m < n && rooms@[m]@ == before[k].room_id@;
                                    assert(rooms@[m]@ == out@[k].room_id@);
                                } else {
                                    assert(out@[start + (k - start)] == out@[k]);
                                    assert(rooms@[n as int]@ == out@[k].room_id@);
                                }
                            }
                            assert forall|m: int, i: int|
                                0 <= m < n + 1 && #[trigger] wanted(
                                    b,
                                    rooms@[m]@,
                                    i,
                                ) implies exists|k: int|
                                0 <= k < out@.len() && #[trigger] at_place(
                                    out@[k]@,
                                    rooms@[m]@,
                                    i,
                                ) by {
                                if m < n {
                                    let k = choose|k: int|
                                        0 <= k < before.len() && #[trigger] at_place(
                                            before[k]@,
                                            rooms@[m]@,
                                            i,
                                        );
                                    assert(out@[k] == before[k]);
                                    assert(at_place(out@[k]@, rooms@[m]@, i));
                                } else {
                                    assert(encrypted_event(all[i]));
                                    let q = choose|q: int| 0 <= q < places@.len() && places@[q] == i;
                                    assert(at_place(out@[start + q]@, rooms@[m]@, i));
                                }
                            }
                            assert forall|k: int, l: int| 0 <= k < l < out@.len() implies (
                            #[trigger] out@[k]).room_id@ != (#[trigger] out@[l]).room_id@
                                || out@[k].index != out@[l].index by {
                                if l < start {
                                    assert(out@[k] == before[k] && out@[l] == before[l]);
                                } else if k < start {
                                    assert(out@[k] == before[k]);
                                    assert(out@[start + (l - start)] == out@[l]);
                                    let m = choose|m: int|
                                        0 <= m < n && rooms@[m]@ == before[k].room_id@;
                                    assert(rooms@[m]@ != rooms@[n as int]@);
                                } else {
                                    assert(out@[start + (k - start)] == out@[k]);
                                    assert(out@[start + (l - start)] == out@[l]);
                                    assert(places@[k - start] < places@[l - start]);
                                }
                            }
                        }
                    },
                    None => {},
                },
                None => {},
            }
        }
        proof {
            if out@.len() == start {
                assert(out@ =~= before);
            }
        }
        n = n + 1;
    }
    proof {
        let jobs = job_views(out@);
        assert forall|k: int| 0 <= k < jobs.len() implies #[trigger] is_job(jobs[k], b) by {
            assert(is_job(out@[k]@, b));
        }
        assert forall|room: Seq<char>, i: int| #[trigger] wanted(b, room, i) implies exists|k: int|
            0 <= k < jobs.len() && at_place(jobs[k], room, i) by {
            lemma_joined(b, room);
            assert(crate::json::field(join@, room) is Some);
            let m = choose|m: int| 0 <= m < rooms@.len() && rooms@[m]@ == room;
            assert(wanted(b, rooms@[m]@, i));
            let k = choose|k: int|
                0 <= k < out@.len() && #[trigger] at_place(out@[k]@, rooms@[m]@, i);
            assert(at_place(jobs[k], room, i));
        }
        assert forall|k: int, l: int| 0 <= k < l < jobs.len() implies (#[trigger] jobs[k]).room_id
            != (#[trigger] jobs[l]).room_id || jobs[k].index != jobs[l].index by {
            assert(jobs[k] == out@[k]@ && jobs[l] == out@[l]@);
        }
    }
    out
}

} // verus!
