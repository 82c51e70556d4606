//! The decisions of the request processor: answering the requirement read,
//! the decision list and a decision resolution, and deciding where a
//! requirement's source comes from. Reading the thread store, the live
//! thread and the goal service is left to the caller, which hands over what
//! it read.
use vstd::prelude::*;
use vstd::string::StringExecFns;
use crate::decisions::{derive_decisions, derived_decisions, filter_decisions, filtered_decisions};
use crate::history::RequirementSource;
use crate::protocol::{
    decision_views, opt_text, DecisionView, ResolveParamsView, ThreadDecision,
    ThreadDecisionListParams, ThreadDecisionListResponse, ThreadDecisionResolveParams,
    ThreadDecisionResolveResponse, ThreadDecisionStatus, ThreadDecisionUrgency,
    ThreadRequirementReadResponse,
};
use crate::requirement::{build_thread_requirement, requirement_of};
use crate::text::{from_chars, to_chars, trim, trim_chars};
use crate::thread_id::{
    invalid_request, parse_thread_id, parsed_thread_id, JsonRpcError,
    JsonRpcErrorView, INVALID_REQUEST_ERROR_CODE,
};

verus! {

#[verifier::external_type_specification]
#[verifier::external_body]
pub struct ExSystemTime(std::time::SystemTime);

#[verifier::external_type_specification]
#[verifier::external_body]
pub struct ExSystemTimeError(std::time::SystemTimeError);

/// Trusted: calls `std::time::SystemTime::now`. Nothing is claimed of the
/// time it reads.
#[verifier::external_body]
fn system_time_now() -> std::time::SystemTime {
    std::time::SystemTime::now()
}

/// Trusted: calls `SystemTime::duration_since` with `UNIX_EPOCH`. Nothing is
/// claimed of the duration; it is an error for a time before the epoch.
#[verifier::external_body]
fn duration_since_unix_epoch(t: &std::time::SystemTime) -> Result<
    std::time::Duration,
    std::time::SystemTimeError,
> {
    t.duration_since(std::time::UNIX_EPOCH)
}

/// Trusted: calls `Duration::as_secs`. Nothing is claimed of the result,
/// since the duration is opaque here.
#[verifier::external_body]
fn duration_as_secs(d: &std::time::Duration) -> u64 {
    d.as_secs()
}

/// The timestamp for the seconds elapsed since the Unix epoch (`None` when
/// the clock stands before the epoch): the seconds as a signed number.
pub open spec fn timestamp_of(elapsed_secs: Option<u64>) -> Option<i64> {
    match elapsed_secs {
        Some(s) => Some(s as i64),
        None => None,
    }
}

/// The timestamp for the seconds elapsed since the Unix epoch, or nothing
/// when the clock stands before the epoch.
pub fn unix_timestamp_from_elapsed(elapsed_secs: Option<u64>) -> (r: Option<i64>)
    ensures
        r == timestamp_of(elapsed_secs),
{
    match elapsed_secs {
        Some(s) => Some(s as i64),
        None => None,
    }
}

/// The seconds since the Unix epoch by the system clock, or nothing when the
/// clock stands before the epoch.
pub fn current_unix_timestamp() -> Option<i64> {
    let now = system_time_now();
    let elapsed = match duration_since_unix_epoch(&now) {
        Ok(d) => Some(duration_as_secs(&d)),
        Err(_) => None,
    };
    unix_timestamp_from_elapsed(elapsed)
}

/// The message of a resolution that names no decision.
pub open spec fn empty_decision_id_message() -> Seq<char> {
    "decisionId must not be empty"@
}

/// The decision that a resolution request records, for the thread with the
/// given canonical id and the given time of resolution: refused when the
/// decision id is blank; otherwise deferred (with no time) or resolved at
/// `now`, titled by its trimmed id, described by the resolution.
pub open spec fn resolved_decision(
    params: ResolveParamsView,
    thread_id: Seq<char>,
    now: Option<i64>,
) -> Result<DecisionView, JsonRpcErrorView> {
    let id = trim(params.decision_id);
    if id.len() == 0 {
        Err(JsonRpcErrorView { code: INVALID_REQUEST_ERROR_CODE, message: empty_decision_id_message() })
    } else {
        Ok(
            DecisionView {
                id,
                thread_id,
                title: id,
                description: match params.resolution {
                    Some(r) => r,
                    None => Seq::empty(),
                },
                urgency: ThreadDecisionUrgency::Deferred,
                status: if params.defer {
                    ThreadDecisionStatus::Deferred
                } else {
                    ThreadDecisionStatus::Resolved
                },
                options: Seq::empty(),
                recommendation: None,
                source_turn_id: None,
                resolved_at: if params.defer {
                    None
                } else {
                    now
                },
                resolution: params.resolution,
                selected_option_id: params.selected_option_id,
            },
        )
    }
}

/// A resolution request is accepted exactly when its decision id is not
/// blank; the decision it records, deferred or not, keeps the request's
/// resolution and selected option, is described by the resolution (or by
/// nothing when there is none), is identified and titled by the trimmed
/// decision id, and belongs to the given thread.
pub proof fn law_resolution_keeps_request(params: ResolveParamsView, thread_id: Seq<char>, now: Option<i64>)
    ensures
        resolved_decision(params, thread_id, now) is Ok <==> trim(params.decision_id).len() > 0,
        resolved_decision(params, thread_id, now) matches Ok(d) ==> {
            &&& d.resolution == params.resolution
            &&& d.selected_option_id == params.selected_option_id
            &&& d.description == (match params.resolution {
                Some(r) => r,
                None => Seq::<char>::empty(),
            })
            &&& d.id == trim(params.decision_id)
            &&& d.title == trim(params.decision_id)
            &&& d.thread_id == thread_id
        },
{
}

/// Deferring and resolving the same request differ only in the status and in
/// the time of resolution: a deferred decision has no time, a resolved one
/// has the time given; everything else, the resolution note among it, is the
/// same, and a request refused one way is refused the other way with the same
/// error.
pub proof fn law_defer_differs_only_in_status_and_time(
    params: ResolveParamsView,
    thread_id: Seq<char>,
    now: Option<i64>,
)
    ensures
        ({
            let deferred = resolved_decision(
                (ResolveParamsView { defer: true, ..params }),
                thread_id,
                now,
            );
            let resolved = resolved_decision(
                (ResolveParamsView { defer: false, ..params }),
                thread_id,
                now,
            );
            match (deferred, resolved) {
                (Ok(a), Ok(b)) => {
                    &&& a.status == ThreadDecisionStatus::Deferred
                    &&& a.resolved_at is None
                    &&& b.status == ThreadDecisionStatus::Resolved
                    &&& b.resolved_at == now
                    &&& (DecisionView { status: b.status, resolved_at: b.resolved_at, ..a }) == b
                },
                (Err(e1), Err(e2)) => e1 == e2,
                _ => false,
            }
        }),
{
}

pub open spec fn resolve_result_view(r: Result<ThreadDecisionResolveResponse, JsonRpcError>) -> Result<
    DecisionView,
    JsonRpcErrorView,
> {
    match r {
        Ok(resp) => Ok(resp.decision@),
        Err(e) => Err(e@),
    }
}

/// The answer to a resolution request for the thread with canonical id
/// `thread_id`, resolved at `now` unless deferred.
pub fn resolve_decision(
    params: ThreadDecisionResolveParams,
    thread_id: String,
    now: Option<i64>,
) -> (r: Result<ThreadDecisionResolveResponse, JsonRpcError>)
    ensures
        resolve_result_view(r) == resolved_decision(params@, thread_id@, now),
{
    let cs = to_chars(params.decision_id.as_str());
    let trimmed = trim_chars(&cs);
    if trimmed.len() == 0 {
        return Err(invalid_request(String::from_str("decisionId must not be empty")));
    }
    let status = if params.defer {
        ThreadDecisionStatus::Deferred
    } else {
        ThreadDecisionStatus::Resolved
    };
    let resolved_at = if params.defer {
        None
    } else {
        now
    };
    let description = match &params.resolution {
        Some(r) => r.clone(),
        None => String::new(),
    };
    let decision = ThreadDecision {
        id: from_chars(&trimmed),
        thread_id,
        title: from_chars(&trimmed),
        description,
        urgency: ThreadDecisionUrgency::Deferred,
        status,
        options: Vec::new(),
        recommendation: None,
        source_turn_id: None,
        resolved_at,
        resolution: params.resolution,
        selected_option_id: params.selected_option_id,
    };
    assert(decision@.options =~= Seq::<crate::protocol::DecisionOptionView>::empty());
    Ok(ThreadDecisionResolveResponse { decision })
}

/// The answer to a resolution request: refused when the thread id does not
/// parse or the decision id is blank; otherwise the decision, resolved at
/// the time the system clock reads (which is not claimed here), or deferred
/// with no time.
pub fn thread_decision_resolve(params: ThreadDecisionResolveParams) -> (r: Result<
    ThreadDecisionResolveResponse,
    JsonRpcError,
>)
    ensures
        match parsed_thread_id(params@.thread_id) {
            Err(e) => resolve_result_view(r) == Err::<DecisionView, JsonRpcErrorView>(e),
            Ok(t) => {
                &&& resolve_result_view(r) == resolved_decision(
                    params@,
                    t,
                    match r {
                        Ok(resp) => resp.decision.resolved_at,
                        Err(_) => None,
                    },
                )
                &&& (params.defer ==> (r matches Ok(resp) ==> resp.decision.resolved_at is None))
            },
        },
{
    let thread_id = match parse_thread_id(params.thread_id.as_str()) {
        Ok(t) => t,
        Err(e) => return Err(e),
    };
    let now = if params.defer {
        None
    } else {
        current_unix_timestamp()
    };
    resolve_decision(params, thread_id, now)
}

/// The answer to a requirement read: the requirement built from the source
/// and the thread's goal objective.
pub fn thread_requirement_read(source: RequirementSource, objective: Option<String>) -> (r:
    ThreadRequirementReadResponse)
    ensures
        r.requirement@ == requirement_of(source@, opt_text(objective)),
{
    ThreadRequirementReadResponse { requirement: build_thread_requirement(source, objective) }
}

/// The answer to a decision list: the decisions derived from the source that
/// pass the request's status and urgency filters, in their order.
pub fn thread_decision_list(params: &ThreadDecisionListParams, source: &RequirementSource) -> (r:
    ThreadDecisionListResponse)
    ensures
        decision_views(r.data@) == filtered_decisions(
            derived_decisions(source@.thread_id, source@.turns),
            params.status,
            params.urgency,
        ),
{
    let decisions = derive_decisions(source.thread_id.as_str(), source.turns.as_slice());
    let data = filter_decisions(&decisions, params.status, params.urgency);
    ThreadDecisionListResponse { data }
}

} // verus!
