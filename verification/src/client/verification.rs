//! Emoji verifications: which are running, and what the user is shown of them.

use vstd::prelude::*;
use crate::client::{is_raised, lower, raise, ClientView, PanClient};
use crate::ids::is_user_id;
use crate::maps::{get_text, put_text, remove_text, text_entries};
use crate::messages::DaemonToUi;
use crate::text::same;

verus! {

/// What is known of a request to verify.
#[derive(Debug)]
pub struct RequestFacts {
    pub device_id: Option<String>,
    pub done: bool,
    pub we_started: bool,
}

/// What has become of a request to verify that this side made.
#[derive(Debug)]
pub enum PendingOutcome {
    /// The crypto machine knows nothing of it.
    Unknown,
    /// It is done or was cancelled.
    Finished,
    /// The other side has not answered yet.
    Waiting,
    /// The other side is ready and the verification has begun.
    Started { device_id: String, flow_id: String },
    /// The other side is ready and the verification could not begin.
    Failed,
}

/// What the crypto machine knows of a request to verify that this side made.
#[derive(Debug, Clone, Copy, PartialEq, Eq, Structural)]
pub struct PendingFacts {
    pub done: bool,
    pub cancelled: bool,
    pub ready: bool,
}

/// What to do about a request to verify that this side made.
#[derive(Debug, Clone, Copy, PartialEq, Eq, Structural)]
pub enum PendingStep {
    /// Forget it: the crypto machine knows nothing of it.
    Drop,
    /// Forget it: it is done or was cancelled.
    Finish,
    /// Begin the verification.
    Start,
    /// Leave it for now.
    Wait,
}

/// What to do about a request to verify that this side made, given what the crypto
/// machine knows of it.
pub fn pending_step(facts: Option<PendingFacts>) -> (r: PendingStep)
    ensures
        r == match facts {
            None => PendingStep::Drop,
            Some(f) => if f.done || f.cancelled {
                PendingStep::Finish
            } else if f.ready {
                PendingStep::Start
            } else {
                PendingStep::Wait
            },
        },
{
    match facts {
        None => PendingStep::Drop,
        Some(f) => if f.done || f.cancelled {
            PendingStep::Finish
        } else if f.ready {
            PendingStep::Start
        } else {
            PendingStep::Wait
        },
    }
}

/// What is known of a running verification.
#[derive(Debug)]
pub struct SasFacts {
    pub finished: bool,
    pub emoji: Option<Vec<(String, String)>>,
    pub user_id: String,
    pub device_id: String,
    pub flow_id: String,
}

/// What is known of a running verification.
#[verifier::ext_equal]
pub struct SasView {
    pub finished: bool,
    pub emoji: Option<Seq<(Seq<char>, Seq<char>)>>,
    pub user_id: Seq<char>,
    pub device_id: Seq<char>,
    pub flow_id: Seq<char>,
}

impl View for SasFacts {
    type V = SasView;

    open spec fn view(&self) -> SasView {
        SasView {
            finished: self.finished,
            emoji: match self.emoji {
                Some(e) => Some(crate::messages::pair_views(e@)),
                None => None,
            },
            user_id: self.user_id@,
            device_id: self.device_id@,
            flow_id: self.flow_id@,
        }
    }
}

/// The name of the verification with a device.
pub open spec fn sas_key(user_id: Seq<char>, device_id: Seq<char>) -> Seq<char> {
    user_id + ":"@ + device_id
}

/// The name of the verification with a device.
pub fn sas_name(user_id: &str, device_id: &str) -> (r: String)
    ensures
        r@ == sas_key(user_id@, device_id@),
{
    user_id.to_owned().concat(":").concat(device_id)
}

/// Whether a request is one that a device made and that is still open.
pub open spec fn open_request(r: RequestFacts, device_id: Seq<char>) -> bool {
    &&& r.device_id matches Some(d)
    &&& d@ == device_id
    &&& !r.done
    &&& !r.we_started
}

/// The first request that a device made and that is still open.
pub fn pick_request(requests: &Vec<RequestFacts>, device_id: &str) -> (r: Option<usize>)
    ensures
        r matches Some(i) ==> i < requests@.len() && open_request(requests@[i as int], device_id@)
            && forall|j: int| 0 <= j < i ==> !open_request(#[trigger] requests@[j], device_id@),
        r is None ==> forall|j: int|
            0 <= j < requests@.len() ==> !open_request(#[trigger] requests@[j], device_id@),
{
    let mut i: usize = 0;
    while i < requests.len()
        invariant
            i <= requests@.len(),
            forall|j: int| 0 <= j < i ==> !open_request(#[trigger] requests@[j], device_id@),
        decreases requests@.len() - i,
    {
        let from_device = match &requests[i].device_id {
            Some(d) => same(d.as_str(), device_id),
            None => false,
        };
        if from_device && !requests[i].done && !requests[i].we_started {
            return Some(i);
        }
        i = i + 1;
    }
    None
}

/// A session with a running verification. What was shown of an earlier one with the same
/// device no longer counts.
pub open spec fn with_sas(
    c: ClientView,
    user_id: Seq<char>,
    device_id: Seq<char>,
    flow_id: Seq<char>,
) -> ClientView {
    let key = sas_key(user_id, device_id);
    ClientView {
        active_sas: c.active_sas.insert(key, flow_id),
        notified_show: c.notified_show.remove(key),
        ..c
    }
}

/// A session after it has looked at a request that it made.
pub open spec fn after_pending(
    c: ClientView,
    flow_id: Seq<char>,
    user_id: Seq<char>,
    outcome: PendingOutcome,
) -> ClientView {
    let settled = ClientView { pending_requests: c.pending_requests.remove(flow_id), ..c };
    if !crate::ids::user_id_valid(user_id) {
        settled
    } else {
        match outcome {
            PendingOutcome::Waiting => c,
            PendingOutcome::Started { device_id, flow_id } => with_sas(
                settled,
                user_id,
                device_id@,
                flow_id@,
            ),
            _ => settled,
        }
    }
}

/// A session after it has looked at a list of requests that it made.
pub open spec fn after_all_pending(
    c: ClientView,
    outcomes: Seq<(String, String, PendingOutcome)>,
) -> ClientView
    decreases outcomes.len(),
{
    if outcomes.len() == 0 {
        c
    } else {
        let (flow_id, user_id, outcome) = outcomes.last();
        after_pending(after_all_pending(c, outcomes.drop_last()), flow_id@, user_id@, outcome)
    }
}

/// Whether what is known of a verification is about the one that runs under a name.
pub open spec fn runs(c: ClientView, key: Seq<char>, facts: SasView) -> bool {
    c.active_sas.contains_key(key) && c.active_sas[key] == facts.flow_id
}

/// A session after it has looked at a verification, if it still runs.
pub open spec fn after_sas(c: ClientView, key: Seq<char>, facts: SasView) -> ClientView {
    if !runs(c, key, facts) {
        c
    } else if facts.finished {
        ClientView { active_sas: c.active_sas.remove(key), ..c }
    } else if facts.emoji is Some {
        ClientView { notified_show: c.notified_show.insert(key), ..c }
    } else {
        c
    }
}

/// What the user interface is told of a verification, if it still runs.
pub open spec fn told_of_sas(c: ClientView, key: Seq<char>, facts: SasView) -> Option<
    crate::messages::UiView,
> {
    if !runs(c, key, facts) {
        None
    } else if facts.finished {
        Some(
            crate::messages::UiView::SasDone {
                pan_user: c.user_id,
                user_id: facts.user_id,
                device_id: facts.device_id,
                transaction_id: facts.flow_id,
            },
        )
    } else {
        match facts.emoji {
            Some(emoji) => if c.notified_show.contains(key) {
                None
            } else {
                Some(
                    crate::messages::UiView::SasShow {
                        pan_user: c.user_id,
                        user_id: facts.user_id,
                        device_id: facts.device_id,
                        transaction_id: facts.flow_id,
                        emoji,
                    },
                )
            },
            None => None,
        }
    }
}

/// A session after it has looked at a list of running verifications.
pub open spec fn after_states(c: ClientView, states: Seq<(Seq<char>, SasView)>) -> ClientView
    decreases states.len(),
{
    if states.len() == 0 {
        c
    } else {
        after_sas(after_states(c, states.drop_last()), states.last().0, states.last().1)
    }
}

/// What the user interface is told of a list of running verifications.
pub open spec fn told_of_states(c: ClientView, states: Seq<(Seq<char>, SasView)>) -> Seq<
    crate::messages::UiView,
>
    decreases states.len(),
{
    if states.len() == 0 {
        Seq::empty()
    } else {
        let before = told_of_states(c, states.drop_last());
        match told_of_sas(
            after_states(c, states.drop_last()),
            states.last().0,
            states.last().1,
        ) {
            Some(m) => before.push(m),
            None => before,
        }
    }
}

/// What a list of running verifications means.
pub open spec fn state_views(states: Seq<(String, SasFacts)>) -> Seq<(Seq<char>, SasView)> {
    states.map_values(|s: (String, SasFacts)| (s.0@, s.1@))
}

/// The emoji of a running verification are shown once. Once a new verification with the
/// device has begun, its emoji are shown again.
pub proof fn emoji_shown_once(
    c: ClientView,
    user_id: Seq<char>,
    device_id: Seq<char>,
    facts: SasView,
)
    requires
        !facts.finished,
        facts.emoji is Some,
    ensures
        ({
            let key = sas_key(user_id, device_id);
            let begun = with_sas(c, user_id, device_id, facts.flow_id);
            &&& told_of_sas(begun, key, facts) is Some
            &&& told_of_sas(after_sas(begun, key, facts), key, facts) is None
            &&& told_of_sas(after_sas(c, key, facts), key, facts) is None
        }),
{
}

/// What each of a list of verifications is told on its own.
pub open spec fn told_each(c: ClientView, states: Seq<(Seq<char>, SasView)>) -> Seq<
    crate::messages::UiView,
>
    decreases states.len(),
{
    if states.len() == 0 {
        Seq::empty()
    } else {
        let before = told_each(c, states.drop_last());
        match told_of_sas(c, states.last().0, states.last().1) {
            Some(m) => before.push(m),
            None => before,
        }
    }
}

/// Whether no two states of a list are about one name.
pub open spec fn distinct_names(states: Seq<(Seq<char>, SasView)>) -> bool {
    forall|i: int, j: int|
        0 <= i < j < states.len() ==> (#[trigger] states[i]).0 != (#[trigger] states[j]).0
}

/// Looking at verifications changes nothing about one that is not among them.
proof fn lemma_untouched(c: ClientView, states: Seq<(Seq<char>, SasView)>, key: Seq<char>)
    requires
        forall|i: int| 0 <= i < states.len() ==> (#[trigger] states[i]).0 != key,
    ensures
        ({
            let after = after_states(c, states);
            &&& after.user_id == c.user_id
            &&& after.active_sas.contains_key(key) == c.active_sas.contains_key(key)
            &&& after.active_sas[key] == c.active_sas[key]
            &&& after.notified_show.contains(key) == c.notified_show.contains(key)
        }),
    decreases states.len(),
{
    if states.len() > 0 {
        let before = states.drop_last();
        assert forall|i: int| 0 <= i < before.len() implies (#[trigger] before[i]).0 != key by {
            assert(before[i] == states[i]);
        }
        lemma_untouched(c, before, key);
        assert(states[states.len() - 1].0 != key);
    }
}

/// A session that looks at its verifications tells of each what there is to tell of it,
/// whatever the others are. Of one that is over it tells the end, once, and shows no emoji;
/// that one then runs no more, so that nothing is told of it again. One that is not over
/// runs on.
pub proof fn verifications_told(
    c: ClientView,
    states: Seq<(Seq<char>, SasView)>,
    i: int,
    later: SasView,
)
    requires
        distinct_names(states),
        0 <= i < states.len(),
        runs(c, states[i].0, states[i].1),
    ensures
        told_of_states(c, states) == told_each(c, states),
        states[i].1.finished ==> {
            let (key, facts) = states[i];
            let after = after_states(c, states);
            &&& told_of_sas(c, key, facts) == Some(
                crate::messages::UiView::SasDone {
                    pan_user: c.user_id,
                    user_id: facts.user_id,
                    device_id: facts.device_id,
                    transaction_id: facts.flow_id,
                },
            )
            &&& !after.active_sas.contains_key(key)
            &&& told_of_sas(after, key, later) is None
        },
        !states[i].1.finished ==> runs(after_states(c, states), states[i].0, states[i].1),
    decreases states.len(),
{
    let before = states.drop_last();
    let (key, facts) = states.last();
    assert(distinct_names(before)) by {
        assert forall|k: int, l: int| 0 <= k < l < before.len() implies (#[trigger] before[k]).0
            != (#[trigger] before[l]).0 by {
            assert(before[k] == states[k] && before[l] == states[l]);
        }
    }
    assert forall|k: int| 0 <= k < before.len() implies (#[trigger] before[k]).0 != key by {
        assert(before[k] == states[k]);
        assert(states[states.len() - 1].0 == key);
    }
    lemma_untouched(c, before, key);
    lemma_told_each(c, before);
    if i < before.len() {
        assert(before[i] == states[i]);
        verifications_told(c, before, i, later);
    }
}

/// What is told of a list of verifications is what each is told on its own.
proof fn lemma_told_each(c: ClientView, states: Seq<(Seq<char>, SasView)>)
    requires
        distinct_names(states),
    ensures
        told_of_states(c, states) == told_each(c, states),
    decreases states.len(),
{
    if states.len() > 0 {
        let before = states.drop_last();
        let key = states.last().0;
        assert(distinct_names(before)) by {
            assert forall|k: int, l: int| 0 <= k < l < before.len() implies (
            #[trigger] before[k]).0 != (#[trigger] before[l]).0 by {
                assert(before[k] == states[k] && before[l] == states[l]);
            }
        }
        assert forall|k: int| 0 <= k < before.len() implies (#[trigger] before[k]).0 != key by {
            assert(before[k] == states[k]);
            assert(states[states.len() - 1].0 == key);
        }
        lemma_untouched(c, before, key);
        lemma_told_each(c, before);
    }
}

/// A copy of a list of pairs of texts.
fn copy_pairs(pairs: &Vec<(String, String)>) -> (r: Vec<(String, String)>)
    ensures
        crate::messages::pair_views(r@) == crate::messages::pair_views(pairs@),
{
    let mut out: Vec<(String, String)> = Vec::new();
    let mut i: usize = 0;
    while i < pairs.len()
        invariant
            i <= pairs@.len(),
            out@.len() == i,
            forall|j: int|
                0 <= j < i ==> (#[trigger] out@[j]).0@ == pairs@[j].0@ && out@[j].1@
                    == pairs@[j].1@,
        decreases pairs@.len() - i,
    {
        out.push((pairs[i].0.clone(), pairs[i].1.clone()));
        i = i + 1;
    }
    assert(crate::messages::pair_views(out@) =~= crate::messages::pair_views(pairs@));
    out
}

impl PanClient {
    /// Notes that a verification with a device runs.
    pub fn note_sas(&mut self, user_id: &str, device_id: &str, flow_id: &str)
        ensures
            final(self)@ == with_sas(old(self)@, user_id@, device_id@, flow_id@),
    {
        let key = sas_name(user_id, device_id);
        lower(&mut self.notified_show, key.as_str());
        put_text(&mut self.active_sas, key, flow_id.to_owned());
    }

    /// Notes that this side asked a user to verify.
    pub fn note_request(&mut self, flow_id: &str, user_id: &str)
        ensures
            final(self)@ == (ClientView {
                pending_requests: old(self)@.pending_requests.insert(flow_id@, user_id@),
                ..old(self)@
            }),
    {
        put_text(&mut self.pending_requests, flow_id.to_owned(), user_id.to_owned());
    }

    /// The flow of the running verification with a device.
    pub fn running_sas(&self, user_id: &str, device_id: &str) -> (r: Option<String>)
        ensures
            r is Some <==> self@.active_sas.contains_key(sas_key(user_id@, device_id@)),
            r matches Some(f) ==> f@ == self@.active_sas[sas_key(user_id@, device_id@)],
    {
        let key = sas_name(user_id, device_id);
        get_text(&self.active_sas, key.as_str())
    }

    /// Forgets the running verification with a device, and says which flow it was.
    pub fn forget_sas(&mut self, user_id: &str, device_id: &str) -> (r: Option<String>)
        ensures
            final(self)@ == (ClientView {
                active_sas: old(self)@.active_sas.remove(sas_key(user_id@, device_id@)),
                ..old(self)@
            }),
            r is Some <==> old(self)@.active_sas.contains_key(sas_key(user_id@, device_id@)),
            r matches Some(f) ==> f@ == old(self)@.active_sas[sas_key(user_id@, device_id@)],
    {
        let key = sas_name(user_id, device_id);
        let flow = get_text(&self.active_sas, key.as_str());
        remove_text(&mut self.active_sas, key.as_str());
        flow
    }

    /// The requests to verify that this side made: flows and users, in no set order.
    pub fn pending(&self) -> (r: Vec<(String, String)>)
        ensures
            crate::maps::entries_map(r@) == self@.pending_requests,
            forall|i: int, j: int|
                0 <= i < j < r@.len() ==> (#[trigger] r@[i]).0@ != (#[trigger] r@[j]).0@,
    {
        text_entries(&self.pending_requests)
    }

    /// The running verifications: names and flows, in no set order.
    pub fn running(&self) -> (r: Vec<(String, String)>)
        ensures
            crate::maps::entries_map(r@) == self@.active_sas,
            forall|i: int, j: int|
                0 <= i < j < r@.len() ==> (#[trigger] r@[i]).0@ != (#[trigger] r@[j]).0@,
    {
        text_entries(&self.active_sas)
    }

    /// Looks at a request that this side made, given what has become of it.
    fn check_pending_request(&mut self, flow_id: &str, user_id: &str, outcome: &PendingOutcome)
        ensures
            final(self)@ == after_pending(old(self)@, flow_id@, user_id@, *outcome),
    {
        if !is_user_id(user_id) {
            remove_text(&mut self.pending_requests, flow_id);
            return;
        }
        match outcome {
            PendingOutcome::Waiting => {},
            PendingOutcome::Started { device_id, flow_id: sas_flow } => {
                remove_text(&mut self.pending_requests, flow_id);
                self.note_sas(user_id, device_id.as_str(), sas_flow.as_str());
            },
            _ => {
                remove_text(&mut self.pending_requests, flow_id);
            },
        }
    }

    /// Looks at the requests that this side made, given the flow and the user of each and
    /// what has become of it. One that is over, or that cannot begin, is forgotten; one that
    /// has begun becomes a running verification.
    pub fn check_pending_requests(&mut self, outcomes: &Vec<(String, String, PendingOutcome)>)
        ensures
            final(self)@ == after_all_pending(old(self)@, outcomes@),
    {
        let ghost before = self@;
        let mut i: usize = 0;
        assert(after_all_pending(before, outcomes@.take(0)) == before);
        while i < outcomes.len()
            invariant
                i <= outcomes@.len(),
                self@ == after_all_pending(before, outcomes@.take(i as int)),
            decreases outcomes@.len() - i,
        {
            assert(outcomes@.take(i + 1).drop_last() == outcomes@.take(i as int));
            assert(outcomes@.take(i + 1).last() == outcomes@[i as int]);
            self.check_pending_request(
                outcomes[i].0.as_str(),
                outcomes[i].1.as_str(),
                &outcomes[i].2,
            );
            i = i + 1;
        }
        assert(outcomes@.take(i as int) == outcomes@);
    }

    /// Looks at one verification, if it still runs.
    fn check_sas_state(&mut self, key: &str, facts: &SasFacts) -> (r: Option<DaemonToUi>)
        ensures
            final(self)@ == after_sas(old(self)@, key@, facts@),
            r is Some <==> told_of_sas(old(self)@, key@, facts@) is Some,
            r matches Some(m) ==> told_of_sas(old(self)@, key@, facts@) == Some(m@),
    {
        let running = match get_text(&self.active_sas, key) {
            Some(flow) => same(flow.as_str(), facts.flow_id.as_str()),
            None => false,
        };
        if !running {
            return None;
        }
        if facts.finished {
            remove_text(&mut self.active_sas, key);
            return Some(
                DaemonToUi::SasDone {
                    pan_user: self.user_id.clone(),
                    user_id: facts.user_id.clone(),
                    device_id: facts.device_id.clone(),
                    transaction_id: facts.flow_id.clone(),
                },
            );
        }
        match &facts.emoji {
            Some(emoji) => {
                let shown = is_raised(&self.notified_show, key);
                raise(&mut self.notified_show, key);
                if shown {
                    None
                } else {
                    Some(
                        DaemonToUi::SasShow {
                            pan_user: self.user_id.clone(),
                            user_id: facts.user_id.clone(),
                            device_id: facts.device_id.clone(),
                            transaction_id: facts.flow_id.clone(),
                            emoji: copy_pairs(emoji),
                        },
                    )
                }
            },
            None => None,
        }
    }

    /// Looks at the running verifications, given what is known of each, and tells the user
    /// interface of emoji that can be compared and of verifications that are over.
    pub fn check_sas_states(&mut self, states: &Vec<(String, SasFacts)>) -> (r: Vec<DaemonToUi>)
        ensures
            final(self)@ == after_states(old(self)@, state_views(states@)),
            crate::messages::ui_views(r@) == told_of_states(old(self)@, state_views(states@)),
    {
        let ghost before = self@;
        let ghost all = state_views(states@);
        let mut out: Vec<DaemonToUi> = Vec::new();
        let mut i: usize = 0;
        assert(crate::messages::ui_views(out@) =~= told_of_states(before, all.take(0)));
        assert(after_states(before, all.take(0)) == before);
        while i < states.len()
            invariant
                i <= states@.len(),
                all == state_views(states@),
                self@ == after_states(before, all.take(i as int)),
                crate::messages::ui_views(out@) == told_of_states(before, all.take(i as int)),
            decreases states@.len() - i,
        {
            assert(all.take(i + 1).drop_last() == all.take(i as int));
            assert(all.take(i + 1).last() == all[i as int]);
            let ghost told = crate::messages::ui_views(out@);
            match self.check_sas_state(states[i].0.as_str(), &states[i].1) {
                Some(m) => {
                    out.push(m);
                    assert(crate::messages::ui_views(out@) =~= told.push(m@));
                },
                None => {},
            }
            i = i + 1;
        }
        assert(all.take(i as int) == all);
        out
    }
}

} // verus!
