//! The requirement of a thread: its status, outcome summary and decisions,
//! derived from the thread's state and history.
use vstd::prelude::*;
use crate::decisions::{
    decision_matches, derive_decisions, derived_decisions, filtered_decisions, item_decisions,
    items_decisions,
};
use crate::history::{RequirementSource, SourceView, ThreadStatus, Turn, TurnView, turn_views};
use crate::protocol::{
    decision_views, opt_text, DecisionView, RequirementView, ThreadDecision, ThreadDecisionStatus,
    ThreadDecisionUrgency, ThreadRequirement, ThreadRequirementStatus,
};
use crate::summary::{latest_outcome_summary, outcome_summary};

verus! {

/// Whether some decision is still pending.
pub open spec fn has_pending(ds: Seq<DecisionView>) -> bool {
    exists|i: int| 0 <= i < ds.len() && #[trigger] ds[i].status == ThreadDecisionStatus::Pending
}

/// The status of a requirement: failed or running as the thread is; for a
/// thread at rest, waiting while a decision is pending, not started without
/// turns, complete with an outcome summary, and unknown otherwise.
pub open spec fn requirement_status(
    thread_status: ThreadStatus,
    turns: Seq<TurnView>,
    decisions: Seq<DecisionView>,
) -> ThreadRequirementStatus {
    match thread_status {
        ThreadStatus::SystemError => ThreadRequirementStatus::Failed,
        ThreadStatus::Active => ThreadRequirementStatus::Running,
        ThreadStatus::NotLoaded | ThreadStatus::Idle => if has_pending(decisions) {
            ThreadRequirementStatus::WaitingOnDecision
        } else if turns.len() == 0 {
            ThreadRequirementStatus::NotStarted
        } else if outcome_summary(turns) is Some {
            ThreadRequirementStatus::Complete
        } else {
            ThreadRequirementStatus::Unknown
        },
    }
}

/// The requirement built from a source and an optional objective.
pub open spec fn requirement_of(source: SourceView, objective: Option<Seq<char>>) -> RequirementView {
    let decisions = derived_decisions(source.thread_id, source.turns);
    RequirementView {
        thread_id: source.thread_id,
        objective,
        status: requirement_status(source.status, source.turns, decisions),
        summary: match outcome_summary(source.turns) {
            Some(s) => s,
            None => Seq::empty(),
        },
        decisions,
        updated_at: source.updated_at,
    }
}

/// Whether some decision is still pending.
fn any_pending(decisions: &[ThreadDecision]) -> (b: bool)
    ensures
        b == has_pending(decision_views(decisions@)),
{
    let ghost dv = decision_views(decisions@);
    let mut i: usize = 0;
    while i < decisions.len()
        invariant
            i <= decisions.len(),
            dv == decision_views(decisions@),
            forall|k: int| 0 <= k < i ==> dv[k].status != ThreadDecisionStatus::Pending,
        decreases decisions.len() - i,
    {
        if decisions[i].status == ThreadDecisionStatus::Pending {
            assert(dv[i as int].status == ThreadDecisionStatus::Pending);
            return true;
        }
        i = i + 1;
    }
    false
}

/// The status of a requirement, from the thread's state, its turns and the
/// decisions derived from them.
pub fn derive_requirement_status(
    thread_status: &ThreadStatus,
    turns: &[Turn],
    decisions: &[ThreadDecision],
) -> (r: ThreadRequirementStatus)
    ensures
        r == requirement_status(*thread_status, turn_views(turns@), decision_views(decisions@)),
{
    match thread_status {
        ThreadStatus::SystemError => ThreadRequirementStatus::Failed,
        ThreadStatus::Active => ThreadRequirementStatus::Running,
        ThreadStatus::NotLoaded | ThreadStatus::Idle => {
            if any_pending(decisions) {
                ThreadRequirementStatus::WaitingOnDecision
            } else if turns.len() == 0 {
                ThreadRequirementStatus::NotStarted
            } else if latest_outcome_summary(turns).is_some() {
                ThreadRequirementStatus::Complete
            } else {
                ThreadRequirementStatus::Unknown
            }
        },
    }
}

/// The requirement of a thread: its decisions, outcome summary (empty when
/// there is none) and status, with the given objective.
pub fn build_thread_requirement(source: RequirementSource, objective: Option<String>) -> (r:
    ThreadRequirement)
    ensures
        r@ == requirement_of(source@, opt_text(objective)),
{
    let decisions = derive_decisions(source.thread_id.as_str(), source.turns.as_slice());
    let summary = match latest_outcome_summary(source.turns.as_slice()) {
        Some(s) => s,
        None => String::new(),
    };
    let status = derive_requirement_status(&source.status, source.turns.as_slice(), decisions.as_slice());
    ThreadRequirement {
        thread_id: source.thread_id,
        objective,
        status,
        summary,
        decisions,
        updated_at: source.updated_at,
    }
}

/// A decision as derivation makes it: pending, deferred, of the given thread,
/// from some turn, with no description, options or resolution.
pub open spec fn is_derived_shape(d: DecisionView, thread_id: Seq<char>) -> bool {
    &&& d.status == ThreadDecisionStatus::Pending
    &&& d.urgency == ThreadDecisionUrgency::Deferred
    &&& d.thread_id == thread_id
    &&& d.description.len() == 0
    &&& d.options.len() == 0
    &&& d.recommendation is None
    &&& d.source_turn_id is Some
    &&& d.resolved_at is None
    &&& d.resolution is None
    &&& d.selected_option_id is None
}

proof fn lemma_items_decisions_shape(thread_id: Seq<char>, turn_id: Seq<char>, items: Seq<crate::history::ItemView>)
    ensures
        forall|i: int|
            0 <= i < items_decisions(thread_id, turn_id, items).len() ==> is_derived_shape(
                #[trigger] items_decisions(thread_id, turn_id, items)[i],
                thread_id,
            ),
    decreases items.len(),
{
    if items.len() > 0 {
        lemma_items_decisions_shape(thread_id, turn_id, items.drop_last());
        let a = items_decisions(thread_id, turn_id, items.drop_last());
        let b = item_decisions(thread_id, turn_id, items.last());
        assert forall|i: int| 0 <= i < (a + b).len() implies is_derived_shape(#[trigger] (a + b)[i], thread_id) by {
            if i >= a.len() {
                assert((a + b)[i] == b[i - a.len()]);
            } else {
                assert((a + b)[i] == a[i]);
            }
        }
    }
}

/// Every decision derived from a thread's history is pending and deferred,
/// belongs to that thread, names the turn it came from, and has no
/// description, options, recommendation or resolution.
pub proof fn law_derived_decisions_are_pending(thread_id: Seq<char>, turns: Seq<TurnView>)
    ensures
        forall|i: int|
            0 <= i < derived_decisions(thread_id, turns).len() ==> is_derived_shape(
                #[trigger] derived_decisions(thread_id, turns)[i],
                thread_id,
            ),
    decreases turns.len(),
{
    if turns.len() > 0 {
        law_derived_decisions_are_pending(thread_id, turns.drop_last());
        lemma_items_decisions_shape(thread_id, turns.last().id, turns.last().items);
        let a = derived_decisions(thread_id, turns.drop_last());
        let b = items_decisions(thread_id, turns.last().id, turns.last().items);
        assert forall|i: int| 0 <= i < (a + b).len() implies is_derived_shape(#[trigger] (a + b)[i], thread_id) by {
            if i >= a.len() {
                assert((a + b)[i] == b[i - a.len()]);
            } else {
                assert((a + b)[i] == a[i]);
            }
        }
    }
}

/// For a thread at rest (not loaded or idle), the requirement waits on a
/// decision exactly when the thread's plans hold at least one title.
pub proof fn law_waiting_iff_plan_titles(source: SourceView, objective: Option<Seq<char>>)
    requires
        source.status == ThreadStatus::NotLoaded || source.status == ThreadStatus::Idle,
    ensures
        (requirement_of(source, objective).status == ThreadRequirementStatus::WaitingOnDecision)
            <==> derived_decisions(source.thread_id, source.turns).len() > 0,
{
    let ds = derived_decisions(source.thread_id, source.turns);
    law_derived_decisions_are_pending(source.thread_id, source.turns);
    if ds.len() > 0 {
        assert(is_derived_shape(ds[0], source.thread_id));
        assert(has_pending(ds));
    }
}

/// For a thread at rest with turns and no pending decision, the requirement
/// is complete exactly when its summary is not empty, and unknown otherwise.
pub proof fn law_complete_iff_summary(source: SourceView, objective: Option<Seq<char>>)
    requires
        source.status == ThreadStatus::NotLoaded || source.status == ThreadStatus::Idle,
        source.turns.len() > 0,
        derived_decisions(source.thread_id, source.turns).len() == 0,
    ensures
        (requirement_of(source, objective).status == ThreadRequirementStatus::Complete) <==> requirement_of(
            source,
            objective,
        ).summary.len() > 0,
        (requirement_of(source, objective).status == ThreadRequirementStatus::Unknown) <==> requirement_of(
            source,
            objective,
        ).summary.len() == 0,
{
    let r = requirement_of(source, objective);
    match outcome_summary(source.turns) {
        Some(s) => {
            // A summary that is not blank has characters.
            if s.len() == 0 {
                assert(crate::text::trim(s) =~= Seq::<char>::empty());
            }
        },
        None => {},
    }
}

/// A thread at rest (not loaded, as every stored thread is, or idle) with no
/// turns and no pending decision has not started.
pub proof fn law_resting_thread_without_turns_not_started(
    thread_status: ThreadStatus,
    turns: Seq<TurnView>,
    decisions: Seq<DecisionView>,
)
    requires
        thread_status == ThreadStatus::NotLoaded || thread_status == ThreadStatus::Idle,
        turns.len() == 0,
        forall|i: int| 0 <= i < decisions.len() ==> #[trigger] decisions[i].status != ThreadDecisionStatus::Pending,
    ensures
        requirement_status(thread_status, turns, decisions) == ThreadRequirementStatus::NotStarted,
{
}

/// A thread that is not loaded gets the status that the same thread would
/// get if it were idle: both are at rest.
pub proof fn law_not_loaded_decided_as_idle(turns: Seq<TurnView>, decisions: Seq<DecisionView>)
    ensures
        requirement_status(ThreadStatus::NotLoaded, turns, decisions) == requirement_status(
            ThreadStatus::Idle,
            turns,
            decisions,
        ),
{
}

/// A stored thread with no turns yields a requirement that has not started,
/// with an empty summary and no decisions.
pub proof fn law_stored_thread_without_turns(source: SourceView, objective: Option<Seq<char>>)
    requires
        source.status == ThreadStatus::NotLoaded,
        source.turns.len() == 0,
    ensures
        requirement_of(source, objective).status == ThreadRequirementStatus::NotStarted,
        requirement_of(source, objective).summary.len() == 0,
        requirement_of(source, objective).decisions.len() == 0,
{
    reveal_with_fuel(derived_decisions, 1);
    reveal_with_fuel(outcome_summary, 1);
}

/// The decisions listed without filters are exactly those of the requirement
/// read for the same source, in the same order.
pub proof fn law_unfiltered_list_is_requirement_decisions(
    source: SourceView,
    objective: Option<Seq<char>>,
)
    ensures
        filtered_decisions(derived_decisions(source.thread_id, source.turns), None, None)
            == requirement_of(source, objective).decisions,
{
    lemma_filter_all(derived_decisions(source.thread_id, source.turns));
}

proof fn lemma_filter_all(ds: Seq<DecisionView>)
    ensures
        filtered_decisions(ds, None, None) == ds,
    decreases ds.len(),
{
    reveal_with_fuel(Seq::filter, 1);
    if ds.len() > 0 {
        lemma_filter_all(ds.drop_last());
        assert(ds.drop_last().push(ds.last()) =~= ds);
    }
}

/// Filtering by status and urgency at once gives what filtering by status
/// and then by urgency gives.
pub proof fn law_filters_compose(
    ds: Seq<DecisionView>,
    status: ThreadDecisionStatus,
    urgency: ThreadDecisionUrgency,
)
    ensures
        filtered_decisions(ds, Some(status), Some(urgency)) == filtered_decisions(
            filtered_decisions(ds, Some(status), None),
            None,
            Some(urgency),
        ),
    decreases ds.len(),
{
    reveal_with_fuel(Seq::filter, 1);
    if ds.len() > 0 {
        law_filters_compose(ds.drop_last(), status, urgency);
        let inner = filtered_decisions(ds.drop_last(), Some(status), None);
        if decision_matches(ds.last(), Some(status), None) {
            inner.lemma_filter_push(
                ds.last(),
                |x: DecisionView| decision_matches(x, None, Some(urgency)),
            );
        }
    }
}

/// Every listed decision passes the filters it was listed with.
pub proof fn law_listed_decisions_pass_filters(
    ds: Seq<DecisionView>,
    status: Option<ThreadDecisionStatus>,
    urgency: Option<ThreadDecisionUrgency>,
)
    ensures
        forall|i: int|
            0 <= i < filtered_decisions(ds, status, urgency).len() ==> decision_matches(
                #[trigger] filtered_decisions(ds, status, urgency)[i],
                status,
                urgency,
            ),
{
    assert forall|i: int| 0 <= i < filtered_decisions(ds, status, urgency).len() implies decision_matches(
        #[trigger] filtered_decisions(ds, status, urgency)[i],
        status,
        urgency,
    ) by {
        ds.lemma_filter_pred(|x: DecisionView| decision_matches(x, status, urgency), i);
    }
}

} // verus!
