//! Laws of emoji verifications.

use vstd::prelude::*;
use crate::client::verification::{
    pending_step, pick_request, sas_name, PendingFacts, PendingOutcome, PendingStep, RequestFacts,
    SasFacts,
};
use crate::client::PanClient;
use crate::messages::DaemonToUi;
use crate::panctl::{wait_sas_show, Parties};

verus! {

/// Whether a message shows the emoji of a verification: to the user of the session, with the
/// user, the device, the flow and the emoji of the verification, each in its place.
pub open spec fn shows_emoji(m: DaemonToUi, pan_user: Seq<char>, facts: SasFacts) -> bool {
    &&& m matches DaemonToUi::SasShow { pan_user: p, user_id, device_id, transaction_id, emoji }
    &&& p@ == pan_user
    &&& user_id@ == facts.user_id@
    &&& device_id@ == facts.device_id@
    &&& transaction_id@ == facts.flow_id@
    &&& facts.emoji matches Some(e)
    &&& crate::laws::sending::same_pairs(emoji@, e@)
}

/// Whether a message tells that a verification is over, with its user, its device and its
/// flow, each in its place.
pub open spec fn tells_end(m: DaemonToUi, pan_user: Seq<char>, facts: SasFacts) -> bool {
    &&& m matches DaemonToUi::SasDone { pan_user: p, user_id, device_id, transaction_id }
    &&& p@ == pan_user
    &&& user_id@ == facts.user_id@
    &&& device_id@ == facts.device_id@
    &&& transaction_id@ == facts.flow_id@
}

/// Whether the facts of a verification are about the one that runs under a name.
pub open spec fn is_running(c: crate::client::ClientView, name: Seq<char>, facts: SasFacts) -> bool {
    c.active_sas.contains_key(name) && c.active_sas[name] == facts.flow_id@
}

/// Whether no two of a list of states are about one name.
pub open spec fn names_differ(states: Seq<(String, SasFacts)>) -> bool {
    forall|i: int, j: int|
        0 <= i < j < states.len() ==> (#[trigger] states[i]).0@ != (#[trigger] states[j]).0@
}

/// What is told of a list of verifications is told of some of them.
proof fn lemma_told(c: crate::client::ClientView, states: Seq<(String, SasFacts)>, m:
    crate::messages::UiView)
    ensures
        crate::client::verification::told_each(
            c,
            crate::client::verification::state_views(states),
        ).contains(m) <==> exists|i: int|
            0 <= i < states.len() && crate::client::verification::told_of_sas(
                c,
                (#[trigger] states[i]).0@,
                states[i].1@,
            ) == Some(m),
    decreases states.len(),
{
    let views = crate::client::verification::state_views(states);
    let all = crate::client::verification::told_each(c, views);
    if states.len() > 0 {
        let less = states.drop_last();
        lemma_told(c, less, m);
        assert(views.drop_last() =~= crate::client::verification::state_views(less));
        let before = crate::client::verification::told_each(c, views.drop_last());
        let last = states[states.len() - 1];
        assert(views.last() == (last.0@, last.1@));
        if all.contains(m) {
            let k = choose|k: int| 0 <= k < all.len() && all[k] == m;
            if k < before.len() {
                assert(before[k] == m);
                let i = choose|i: int|
                    0 <= i < less.len() && crate::client::verification::told_of_sas(
                        c,
                        (#[trigger] less[i]).0@,
                        less[i].1@,
                    ) == Some(m);
                assert(states[i] == less[i]);
            } else {
                assert(crate::client::verification::told_of_sas(c, last.0@, last.1@) == Some(m));
            }
        }
        if exists|i: int|
            0 <= i < states.len() && crate::client::verification::told_of_sas(
                c,
                (#[trigger] states[i]).0@,
                states[i].1@,
            ) == Some(m) {
            let i = choose|i: int|
                0 <= i < states.len() && crate::client::verification::told_of_sas(
                    c,
                    (#[trigger] states[i]).0@,
                    states[i].1@,
                ) == Some(m);
            if i < less.len() {
                assert(less[i] == states[i]);
                let k = choose|k: int| 0 <= k < before.len() && before[k] == m;
                assert(all[k] == m);
            } else {
                assert(all[all.len() - 1] == m);
            }
        }
    }
}

/// Of a verification that runs and is not over, the emoji are shown where they were not shown
/// yet, with its user, device and flow in their places; of one that is over the end is told,
/// and it runs no more. Nothing is told that is not so.
pub proof fn verifications_are_told(
    client: &mut PanClient,
    states: Vec<(String, SasFacts)>,
    r: Vec<DaemonToUi>,
    i: int,
    k: int,
)
    requires
        call_ensures(PanClient::check_sas_states, (client, &states), r),
        names_differ(states@),
        0 <= i < states@.len(),
    ensures
        ({
            let (name, facts) = states@[i];
            let c = old(client)@;
            &&& is_running(c, name@, facts) && !facts.finished && facts.emoji is Some
                && !c.notified_show.contains(name@) ==> {
                &&& exists|n: int|
                    0 <= n < r@.len() && shows_emoji(#[trigger] r@[n], c.user_id, facts)
                &&& final(client)@.notified_show.contains(name@)
            }
            &&& is_running(c, name@, facts) && facts.finished ==> {
                &&& exists|n: int|
                    0 <= n < r@.len() && tells_end(#[trigger] r@[n], c.user_id, facts)
                &&& !final(client)@.active_sas.contains_key(name@)
            }
            &&& is_running(c, name@, facts) && !facts.finished ==> is_running(
                final(client)@,
                name@,
                facts,
            )
        }),
        0 <= k < r@.len() ==> exists|n: int|
            0 <= n < states@.len() && is_running(
                old(client)@,
                (#[trigger] states@[n]).0@,
                states@[n].1,
            ) && if states@[n].1.finished {
                tells_end(r@[k], old(client)@.user_id, states@[n].1)
            } else {
                shows_emoji(r@[k], old(client)@.user_id, states@[n].1)
                    && !old(client)@.notified_show.contains(states@[n].0@)
            },
{
    let c = old(client)@;
    let views = crate::client::verification::state_views(states@);
    let told = crate::messages::ui_views(r@);
    let (name, facts) = states@[i];
    assert(views[i] == (name@, facts@));
    assert(crate::client::verification::distinct_names(views)) by {
        assert forall|a: int, b: int| 0 <= a < b < views.len() implies (#[trigger] views[a]).0 != (
        #[trigger] views[b]).0 by {
            assert(states@[a].0@ != states@[b].0@);
        }
    }
    lemma_each(c, states@);
    assert(told == crate::client::verification::told_each(c, views));
    if is_running(c, name@, facts) {
        crate::client::verification::verifications_told(c, views, i, facts@);
        match crate::client::verification::told_of_sas(c, name@, facts@) {
            Some(m) => {
                lemma_told(c, states@, m);
                assert(crate::client::verification::told_of_sas(
                    c,
                    states@[i].0@,
                    states@[i].1@,
                ) == Some(m));
                let n = choose|n: int| 0 <= n < told.len() && told[n] == m;
                assert(told[n] == r@[n]@);
                lemma_message(c, name@, facts, r@[n]);
            },
            None => {},
        }
        lemma_marked(c, states@, i);
    }
    if 0 <= k < r@.len() {
        assert(told[k] == r@[k]@);
        lemma_told(c, states@, told[k]);
        assert(told.contains(told[k]));
        let n = choose|n: int|
            0 <= n < states@.len() && crate::client::verification::told_of_sas(
                c,
                (#[trigger] states@[n]).0@,
                states@[n].1@,
            ) == Some(told[k]);
        lemma_message(c, states@[n].0@, states@[n].1, r@[k]);
    }
}

/// What is told of a list of verifications with different names is what each is told alone.
proof fn lemma_each(c: crate::client::ClientView, states: Seq<(String, SasFacts)>)
    requires
        names_differ(states),
    ensures
        crate::client::verification::told_of_states(
            c,
            crate::client::verification::state_views(states),
        ) == crate::client::verification::told_each(
            c,
            crate::client::verification::state_views(states),
        ),
    decreases states.len(),
{
    let views = crate::client::verification::state_views(states);
    if states.len() > 0 {
        let less = states.drop_last();
        assert forall|a: int, b: int| 0 <= a < b < less.len() implies (#[trigger] less[a]).0@ != (
        #[trigger] less[b]).0@ by {
            assert(states[a].0@ != states[b].0@);
        }
        lemma_each(c, less);
        assert(views.drop_last() =~= crate::client::verification::state_views(less));
        let last = states[states.len() - 1];
        assert(views.last() == (last.0@, last.1@));
        lemma_same(c, less, last.0@);
    }
}

/// Looking at verifications changes nothing about one that is not among them.
proof fn lemma_same(
    c: crate::client::ClientView,
    states: Seq<(String, SasFacts)>,
    name: Seq<char>,
)
    requires
        forall|i: int| 0 <= i < states.len() ==> (#[trigger] states[i]).0@ != name,
    ensures
        ({
            let after = crate::client::verification::after_states(
                c,
                crate::client::verification::state_views(states),
            );
            &&& after.user_id == c.user_id
            &&& after.active_sas.contains_key(name) == c.active_sas.contains_key(name)
            &&& after.active_sas[name] == c.active_sas[name]
            &&& after.notified_show.contains(name) == c.notified_show.contains(name)
        }),
    decreases states.len(),
{
    let views = crate::client::verification::state_views(states);
    if states.len() > 0 {
        let less = states.drop_last();
        assert forall|i: int| 0 <= i < less.len() implies (#[trigger] less[i]).0@ != name by {
            assert(less[i] == states[i]);
        }
        lemma_same(c, less, name);
        assert(views.drop_last() =~= crate::client::verification::state_views(less));
        let last = states[states.len() - 1];
        assert(last.0@ != name);
        assert(views.last() == (last.0@, last.1@));
    }
}

/// Emoji that were shown are remembered as shown.
proof fn lemma_marked(c: crate::client::ClientView, states: Seq<(String, SasFacts)>, i: int)
    requires
        names_differ(states),
        0 <= i < states.len(),
        is_running(c, states[i].0@, states[i].1),
    ensures
        !states[i].1.finished && states[i].1.emoji is Some
            ==> crate::client::verification::after_states(
            c,
            crate::client::verification::state_views(states),
        ).notified_show.contains(states[i].0@),
    decreases states.len(),
{
    let views = crate::client::verification::state_views(states);
    let less = states.drop_last();
    assert(views.drop_last() =~= crate::client::verification::state_views(less));
    let last = states[states.len() - 1];
    assert(views.last() == (last.0@, last.1@));
    if i < less.len() {
        assert forall|a: int, b: int| 0 <= a < b < less.len() implies (#[trigger] less[a]).0@ != (
        #[trigger] less[b]).0@ by {
            assert(states[a].0@ != states[b].0@);
        }
        assert(less[i] == states[i]);
        lemma_marked(c, less, i);
    } else {
        assert forall|a: int| 0 <= a < less.len() implies (#[trigger] less[a]).0@ != last.0@ by {
            assert(states[a].0@ != states[i].0@);
        }
        lemma_same(c, less, last.0@);
    }
}

/// What a message about one verification says.
proof fn lemma_message(
    c: crate::client::ClientView,
    name: Seq<char>,
    facts: SasFacts,
    m: DaemonToUi,
)
    requires
        crate::client::verification::told_of_sas(c, name, facts@) == Some(m@),
    ensures
        is_running(c, name, facts),
        facts.finished ==> tells_end(m, c.user_id, facts),
        !facts.finished ==> shows_emoji(m, c.user_id, facts) && !c.notified_show.contains(name),
{
    if !facts.finished {
        if let DaemonToUi::SasShow { emoji, .. } = m {
            let e = facts.emoji.unwrap();
            let a = crate::messages::pair_views(emoji@);
            let b = crate::messages::pair_views(e@);
            assert(a == b);
            assert(a.len() == emoji@.len() && b.len() == e@.len());
            assert forall|i: int| 0 <= i < emoji@.len() implies (#[trigger] emoji@[i]).0@
                == e@[i].0@ && emoji@[i].1@ == e@[i].1@ by {
                assert(a[i] == (emoji@[i].0@, emoji@[i].1@) && b[i] == (e@[i].0@, e@[i].1@));
            }
        }
    }
}

/// A tool that waits for the emoji of a verification prints those that the daemon shows for
/// its parties, and no others.
pub proof fn shown_emoji_are_heard(
    m: DaemonToUi,
    pan_user: Seq<char>,
    facts: SasFacts,
    waiting_for: Parties,
    heard: Parties,
    emoji: Vec<(String, String)>,
    r: Option<Vec<String>>,
)
    requires
        shows_emoji(m, pan_user, facts),
        m->SasShow_pan_user@ == heard.pan_user@,
        m->SasShow_user_id@ == heard.user_id@,
        m->SasShow_device_id@ == heard.device_id@,
        m->SasShow_emoji == emoji,
        call_ensures(wait_sas_show, (&waiting_for, &heard, &emoji), r),
    ensures
        r is Some <==> {
            &&& waiting_for.pan_user@ == pan_user
            &&& waiting_for.user_id@ == facts.user_id@
            &&& waiting_for.device_id@ == facts.device_id@
        },
{
}

/// A verification that has begun with a device runs, under its flow, and its emoji are still
/// to be shown; it is found again by its user and its device, and forgotten when it is
/// cancelled.
pub proof fn verifications_are_noted(
    client: &mut PanClient,
    user_id: &str,
    device_id: &str,
    flow_id: &str,
    name: String,
    other: Seq<char>,
)
    requires
        call_ensures(PanClient::note_sas, (client, user_id, device_id, flow_id), ()),
        call_ensures(sas_name, (user_id, device_id), name),
    ensures
        name@ == user_id@ + ":"@ + device_id@,
        final(client)@.active_sas.contains_key(name@),
        final(client)@.active_sas[name@] == flow_id@,
        !final(client)@.notified_show.contains(name@),
        other != name@ ==> {
            &&& final(client)@.active_sas.contains_key(other) == old(
                client,
            )@.active_sas.contains_key(other)
            &&& final(client)@.active_sas[other] == old(client)@.active_sas[other]
            &&& final(client)@.notified_show.contains(other) == old(
                client,
            )@.notified_show.contains(other)
        },
        final(client)@.pending_requests == old(client)@.pending_requests,
        final(client)@.encrypted_rooms == old(client)@.encrypted_rooms,
        final(client)@.key_wishes == old(client)@.key_wishes,
        final(client)@.notified_invite == old(client)@.notified_invite,
{
}

/// The verification that runs with a device is found by its user and its device.
pub proof fn running_verifications_are_found(
    c: PanClient,
    user_id: &str,
    device_id: &str,
    r: Option<String>,
)
    requires
        call_ensures(PanClient::running_sas, (&c, user_id, device_id), r),
    ensures
        match r {
            Some(flow) => c@.active_sas.contains_key(user_id@ + ":"@ + device_id@)
                && c@.active_sas[user_id@ + ":"@ + device_id@] == flow@,
            None => !c@.active_sas.contains_key(user_id@ + ":"@ + device_id@),
        },
{
}

/// A verification that is forgotten runs no more, its flow is told, and no other changes.
pub proof fn forgotten_verifications_are_gone(
    client: &mut PanClient,
    user_id: &str,
    device_id: &str,
    r: Option<String>,
    other: Seq<char>,
)
    requires
        call_ensures(PanClient::forget_sas, (client, user_id, device_id), r),
    ensures
        ({
            let name = user_id@ + ":"@ + device_id@;
            &&& !final(client)@.active_sas.contains_key(name)
            &&& r is Some <==> old(client)@.active_sas.contains_key(name)
            &&& r matches Some(flow) ==> flow@ == old(client)@.active_sas[name]
            &&& other != name ==> {
                &&& final(client)@.active_sas.contains_key(other) == old(
                    client,
                )@.active_sas.contains_key(other)
                &&& final(client)@.active_sas[other] == old(client)@.active_sas[other]
            }
            &&& final(client)@ == (crate::client::ClientView {
                active_sas: final(client)@.active_sas,
                ..old(client)@
            })
        }),
{
}

/// A request to verify is forgotten once the crypto machine knows nothing of it, begun once
/// the other side is ready, finished once it is done or cancelled, and left alone until then.
pub proof fn requests_are_followed(facts: Option<PendingFacts>, r: PendingStep)
    requires
        call_ensures(pending_step, (facts,), r),
    ensures
        r == PendingStep::Drop <==> facts is None,
        r == PendingStep::Finish <==> (facts matches Some(f) && (f.done || f.cancelled)),
        r == PendingStep::Start <==> (facts matches Some(f) && f.ready && !f.done
            && !f.cancelled),
        r == PendingStep::Wait <==> (facts matches Some(f) && !f.ready && !f.done
            && !f.cancelled),
{
}

/// The request that is accepted is the first of the device that this side did not make and
/// that is not done.
pub proof fn first_open_request_is_picked(
    requests: Vec<RequestFacts>,
    device_id: &str,
    r: Option<usize>,
    j: int,
)
    requires
        call_ensures(pick_request, (&requests, device_id), r),
    ensures
        0 <= j < requests@.len() && (requests@[j].device_id matches Some(d) && d@ == device_id@)
            && !requests@[j].done && !requests@[j].we_started ==> r is Some && r.unwrap() <= j,
        r matches Some(i) ==> {
            &&& i < requests@.len()
            &&& requests@[i as int].device_id matches Some(d)
            &&& d@ == device_id@
            &&& !requests@[i as int].done
            &&& !requests@[i as int].we_started
        },
{
    if 0 <= j < requests@.len() && (requests@[j].device_id matches Some(d) && d@ == device_id@)
        && !requests@[j].done && !requests@[j].we_started {
        assert(crate::client::verification::open_request(requests@[j], device_id@));
        if r is None {
            assert(!crate::client::verification::open_request(requests@[j], device_id@));
        }
    }
}

/// Of a request that this side made and that is looked at: while the other side has not
/// answered it waits on; once it has begun, a verification with the device runs under its
/// flow; else it is forgotten.
pub proof fn pending_requests_are_followed(
    client: &mut PanClient,
    outcomes: Vec<(String, String, PendingOutcome)>,
)
    requires
        outcomes@.len() == 1,
        call_ensures(PanClient::check_pending_requests, (client, &outcomes), ()),
    ensures
        ({
            let (flow, user, outcome) = outcomes@[0];
            let before = old(client)@;
            let after = final(client)@;
            let waits = outcome is Waiting && crate::ids::user_id_valid(user@);
            &&& waits ==> after == before
            &&& !waits ==> after.pending_requests == before.pending_requests.remove(flow@)
            &&& match outcome {
                PendingOutcome::Started { device_id, flow_id } if crate::ids::user_id_valid(
                    user@,
                ) => {
                    let name = user@ + ":"@ + device_id@;
                    &&& after.active_sas == before.active_sas.insert(name, flow_id@)
                    &&& !after.notified_show.contains(name)
                },
                _ => after.active_sas == before.active_sas && after.notified_show
                    == before.notified_show,
            }
        }),
{
    reveal_with_fuel(crate::client::verification::after_all_pending, 2);
    assert(outcomes@.last() == outcomes@[0]);
    assert(outcomes@.drop_last().len() == 0);
}

/// Whether a request that this side made waits on.
pub open spec fn waits_on(outcome: (String, String, PendingOutcome)) -> bool {
    outcome.2 is Waiting && crate::ids::user_id_valid(outcome.1@)
}

/// Whether a request that this side made has become a verification under a name.
pub open spec fn has_begun(outcome: (String, String, PendingOutcome), name: Seq<char>) -> bool {
    &&& outcome.2 matches PendingOutcome::Started { device_id, .. }
    &&& crate::ids::user_id_valid(outcome.1@)
    &&& name == outcome.1@ + ":"@ + device_id@
}

/// What comes of a list of requests.
proof fn lemma_pending(
    c: crate::client::ClientView,
    outcomes: Seq<(String, String, PendingOutcome)>,
    flow: Seq<char>,
    name: Seq<char>,
)
    ensures
        ({
            let after = crate::client::verification::after_all_pending(c, outcomes);
            &&& after.pending_requests.contains_key(flow) <==> c.pending_requests.contains_key(flow)
                && forall|i: int|
                0 <= i < outcomes.len() && !waits_on(#[trigger] outcomes[i]) ==> outcomes[i].0@
                    != flow
            &&& after.pending_requests.contains_key(flow) ==> after.pending_requests[flow]
                == c.pending_requests[flow]
            &&& after.active_sas.contains_key(name) <==> c.active_sas.contains_key(name) || exists|
                i: int,
            | 0 <= i < outcomes.len() && has_begun(#[trigger] outcomes[i], name)
        }),
    decreases outcomes.len(),
{
    let after = crate::client::verification::after_all_pending(c, outcomes);
    if outcomes.len() > 0 {
        let less = outcomes.drop_last();
        lemma_pending(c, less, flow, name);
        let last = outcomes[outcomes.len() - 1];
        let before = crate::client::verification::after_all_pending(c, less);
        assert(outcomes.last() == last);
        if forall|i: int|
            0 <= i < outcomes.len() && !waits_on(#[trigger] outcomes[i]) ==> outcomes[i].0@
                != flow {
            assert forall|i: int|
                0 <= i < less.len() && !waits_on(#[trigger] less[i]) implies less[i].0@ != flow by {
                assert(less[i] == outcomes[i]);
            }
            assert(!waits_on(outcomes[outcomes.len() - 1]) ==> last.0@ != flow);
        }
        if forall|i: int|
            0 <= i < less.len() && !waits_on(#[trigger] less[i]) ==> less[i].0@ != flow {
            if !waits_on(last) ==> last.0@ != flow {
                assert forall|i: int|
                    0 <= i < outcomes.len() && !waits_on(#[trigger] outcomes[i]) implies
                    outcomes[i].0@ != flow by {
                    if i < less.len() {
                        assert(less[i] == outcomes[i]);
                    }
                }
            }
        }
        if exists|i: int| 0 <= i < less.len() && has_begun(#[trigger] less[i], name) {
            let i = choose|i: int| 0 <= i < less.len() && has_begun(#[trigger] less[i], name);
            assert(has_begun(outcomes[i], name));
        }
        if exists|i: int| 0 <= i < outcomes.len() && has_begun(#[trigger] outcomes[i], name) {
            let i = choose|i: int|
                0 <= i < outcomes.len() && has_begun(#[trigger] outcomes[i], name);
            if i < less.len() {
                assert(has_begun(less[i], name));
            }
        }
    }
}

/// Of any number of requests that this side made, those and only those are forgotten that do
/// not wait on, and the verifications that have begun are added to those that run.
pub proof fn all_pending_requests_are_followed(
    client: &mut PanClient,
    outcomes: Vec<(String, String, PendingOutcome)>,
    flow: Seq<char>,
    name: Seq<char>,
)
    requires
        call_ensures(PanClient::check_pending_requests, (client, &outcomes), ()),
    ensures
        final(client)@.pending_requests.contains_key(flow) <==> {
            &&& old(client)@.pending_requests.contains_key(flow)
            &&& forall|i: int|
                0 <= i < outcomes@.len() && !waits_on(#[trigger] outcomes@[i])
                    ==> outcomes@[i].0@ != flow
        },
        final(client)@.active_sas.contains_key(name) <==> {
            ||| old(client)@.active_sas.contains_key(name)
            ||| exists|i: int| 0 <= i < outcomes@.len() && has_begun(#[trigger] outcomes@[i], name)
        },
{
    lemma_pending(old(client)@, outcomes@, flow, name);
}

/// A request that this side made is noted under its flow, with its user.
pub proof fn requests_are_noted(
    client: &mut PanClient,
    flow_id: &str,
    user_id: &str,
    other: Seq<char>,
)
    requires
        call_ensures(PanClient::note_request, (client, flow_id, user_id), ()),
    ensures
        final(client)@.pending_requests.contains_key(flow_id@),
        final(client)@.pending_requests[flow_id@] == user_id@,
        other != flow_id@ ==> final(client)@.pending_requests.contains_key(other) == old(
            client,
        )@.pending_requests.contains_key(other),
        other != flow_id@ ==> final(client)@.pending_requests[other] == old(
            client,
        )@.pending_requests[other],
        final(client)@.active_sas == old(client)@.active_sas,
        final(client)@.key_wishes == old(client)@.key_wishes,
        final(client)@.encrypted_rooms == old(client)@.encrypted_rooms,
{
}

/// The verifications that run and the requests that wait are listed, each once under its name.
pub proof fn verifications_are_listed(
    client: PanClient,
    waiting: Vec<(String, String)>,
    running: Vec<(String, String)>,
    name: Seq<char>,
    i: int,
    j: int,
)
    requires
        call_ensures(PanClient::pending, (&client,), waiting),
        call_ensures(PanClient::running, (&client,), running),
    ensures
        client@.pending_requests.contains_key(name) <==> exists|k: int|
            0 <= k < waiting@.len() && (#[trigger] waiting@[k]).0@ == name,
        client@.active_sas.contains_key(name) <==> exists|k: int|
            0 <= k < running@.len() && (#[trigger] running@[k]).0@ == name,
        0 <= i < waiting@.len() ==> client@.pending_requests[waiting@[i].0@] == waiting@[i].1@,
        0 <= i < running@.len() ==> client@.active_sas[running@[i].0@] == running@[i].1@,
        0 <= i < j < waiting@.len() ==> waiting@[i].0@ != waiting@[j].0@,
        0 <= i < j < running@.len() ==> running@[i].0@ != running@[j].0@,
{
    lemma_listed(waiting@, name, i);
    lemma_listed(running@, name, i);
}

/// What a list of entries without twins spells out.
proof fn lemma_listed(entries: Seq<(String, String)>, name: Seq<char>, i: int)
    requires
        forall|i: int, j: int|
            0 <= i < j < entries.len() ==> (#[trigger] entries[i]).0@ != (#[trigger] entries[j]).0@,
    ensures
        crate::maps::entries_map(entries).contains_key(name) <==> exists|k: int|
            0 <= k < entries.len() && (#[trigger] entries[k]).0@ == name,
        0 <= i < entries.len() ==> crate::maps::entries_map(entries)[entries[i].0@]
            == entries[i].1@,
{
    if 0 <= i < entries.len() {
        crate::maps::lemma_entry_held(entries, i);
    }
    if crate::maps::entries_map(entries).contains_key(name) {
        crate::maps::lemma_entry_found(entries, name);
    }
    if exists|k: int| 0 <= k < entries.len() && (#[trigger] entries[k]).0@ == name {
        let k = choose|k: int| 0 <= k < entries.len() && (#[trigger] entries[k]).0@ == name;
        crate::maps::lemma_entry_held(entries, k);
    }
}

/// What comes of two lists of verifications, one behind the other.
proof fn lemma_states_in_turn(
    c: crate::client::ClientView,
    first: Seq<(String, SasFacts)>,
    second: Seq<(String, SasFacts)>,
)
    ensures
        ({
            let x = crate::client::verification::state_views(first);
            let y = crate::client::verification::state_views(second);
            let all = crate::client::verification::state_views(first + second);
            let between = crate::client::verification::after_states(c, x);
            &&& crate::client::verification::after_states(c, all)
                == crate::client::verification::after_states(between, y)
            &&& crate::client::verification::told_of_states(c, all)
                == crate::client::verification::told_of_states(c, x)
                + crate::client::verification::told_of_states(between, y)
        }),
    decreases second.len(),
{
    let x = crate::client::verification::state_views(first);
    let y = crate::client::verification::state_views(second);
    let all = crate::client::verification::state_views(first + second);
    let told = crate::client::verification::told_of_states(c, x);
    if second.len() == 0 {
        assert(first + second =~= first);
        assert(told + Seq::<crate::messages::UiView>::empty() =~= told);
    } else {
        let less = second.drop_last();
        lemma_states_in_turn(c, first, less);
        assert((first + second).drop_last() =~= first + less);
        assert(all.drop_last() =~= crate::client::verification::state_views(first + less));
        assert(y.drop_last() =~= crate::client::verification::state_views(less));
        assert(all.last() == y.last());
        let between = crate::client::verification::after_states(c, x);
        let later = crate::client::verification::told_of_states(between, y.drop_last());
        match crate::client::verification::told_of_sas(
            crate::client::verification::after_states(between, y.drop_last()),
            y.last().0,
            y.last().1,
        ) {
            Some(m) => {
                assert(told + later.push(m) =~= (told + later).push(m));
            },
            None => {},
        }
    }
}

/// Verifications are looked at one after the other: what comes of a list is what comes of its
/// end once its beginning was looked at, and what is told is told once.
pub proof fn verifications_are_looked_at_in_turn(
    client: &mut PanClient,
    all: Vec<(String, SasFacts)>,
    r: Vec<DaemonToUi>,
    one: &mut PanClient,
    first: Vec<(String, SasFacts)>,
    a: Vec<DaemonToUi>,
    two: &mut PanClient,
    second: Vec<(String, SasFacts)>,
    b: Vec<DaemonToUi>,
)
    requires
        call_ensures(PanClient::check_sas_states, (client, &all), r),
        call_ensures(PanClient::check_sas_states, (one, &first), a),
        call_ensures(PanClient::check_sas_states, (two, &second), b),
        all@ == first@ + second@,
        old(one)@ == old(client)@,
    ensures
        old(two)@ == final(one)@ ==> {
            &&& final(client)@ == final(two)@
            &&& crate::messages::ui_views(r@) == crate::messages::ui_views(a@)
                + crate::messages::ui_views(b@)
        },
{
    lemma_states_in_turn(old(client)@, first@, second@);
}

/// What comes of two lists of requests, one behind the other.
proof fn lemma_requests_in_turn(
    c: crate::client::ClientView,
    first: Seq<(String, String, PendingOutcome)>,
    second: Seq<(String, String, PendingOutcome)>,
)
    ensures
        crate::client::verification::after_all_pending(c, first + second)
            == crate::client::verification::after_all_pending(
            crate::client::verification::after_all_pending(c, first),
            second,
        ),
    decreases second.len(),
{
    if second.len() == 0 {
        assert(first + second =~= first);
    } else {
        lemma_requests_in_turn(c, first, second.drop_last());
        assert((first + second).drop_last() =~= first + second.drop_last());
    }
}

/// Requests that this side made are looked at one after the other: what comes of a list is what
/// comes of its end once its beginning was looked at.
pub proof fn requests_are_looked_at_in_turn(
    client: &mut PanClient,
    all: Vec<(String, String, PendingOutcome)>,
    one: &mut PanClient,
    first: Vec<(String, String, PendingOutcome)>,
    two: &mut PanClient,
    second: Vec<(String, String, PendingOutcome)>,
)
    requires
        call_ensures(PanClient::check_pending_requests, (client, &all), ()),
        call_ensures(PanClient::check_pending_requests, (one, &first), ()),
        call_ensures(PanClient::check_pending_requests, (two, &second), ()),
        all@ == first@ + second@,
        old(one)@ == old(client)@,
    ensures
        old(two)@ == final(one)@ ==> final(client)@ == final(two)@,
{
    lemma_requests_in_turn(old(client)@, first@, second@);
}

} // verus!
