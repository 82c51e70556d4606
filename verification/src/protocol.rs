//! The wire types of the thread requirement surface, each with the
//! mathematical view that the contracts speak of.
use vstd::prelude::*;

verus! {

pub open spec fn opt_text(o: Option<String>) -> Option<Seq<char>> {
    match o {
        Some(s) => Some(s@),
        None => None,
    }
}

#[derive(Debug, Clone, PartialEq, Eq)]
pub struct ThreadRequirementReadParams {
    pub thread_id: String,
}

#[derive(Debug, Clone, PartialEq)]
pub struct ThreadRequirementReadResponse {
    pub requirement: ThreadRequirement,
}

#[derive(Debug, Clone, PartialEq, Eq)]
pub struct ThreadDecisionListParams {
    pub thread_id: String,
    pub status: Option<ThreadDecisionStatus>,
    pub urgency: Option<ThreadDecisionUrgency>,
}

#[derive(Debug, Clone, PartialEq)]
pub struct ThreadDecisionListResponse {
    pub data: Vec<ThreadDecision>,
}

#[derive(Debug, Clone, PartialEq, Eq)]
pub struct ThreadDecisionResolveParams {
    pub thread_id: String,
    pub decision_id: String,
    pub selected_option_id: Option<String>,
    pub resolution: Option<String>,
    pub defer: bool,
}

#[derive(Debug, Clone, PartialEq)]
pub struct ThreadDecisionResolveResponse {
    pub decision: ThreadDecision,
}

#[derive(Debug, Clone, PartialEq)]
pub struct ThreadRequirement {
    pub thread_id: String,
    pub objective: Option<String>,
    pub status: ThreadRequirementStatus,
    pub summary: String,
    pub decisions: Vec<ThreadDecision>,
    pub updated_at: Option<i64>,
}

#[derive(Debug, Clone, Copy, PartialEq, Eq, Structural)]
pub enum ThreadRequirementStatus {
    NotStarted,
    Running,
    WaitingOnDecision,
    Complete,
    Failed,
    Unknown,
}

#[derive(Debug, Clone, PartialEq, Eq)]
pub struct ThreadDecision {
    pub id: String,
    pub thread_id: String,
    pub title: String,
    pub description: String,
    pub urgency: ThreadDecisionUrgency,
    pub status: ThreadDecisionStatus,
    pub options: Vec<ThreadDecisionOption>,
    pub recommendation: Option<String>,
    pub source_turn_id: Option<String>,
    pub resolved_at: Option<i64>,
    pub resolution: Option<String>,
    pub selected_option_id: Option<String>,
}

#[derive(Debug, Clone, Copy, PartialEq, Eq, Structural)]
pub enum ThreadDecisionUrgency {
    Immediate,
    Deferred,
}

#[derive(Debug, Clone, Copy, PartialEq, Eq, Structural)]
pub enum ThreadDecisionStatus {
    Pending,
    Resolved,
    Deferred,
}

#[derive(Debug, Clone, PartialEq, Eq)]
pub struct ThreadDecisionOption {
    pub id: String,
    pub label: String,
    pub description: Option<String>,
}

/// A decision option with its texts as character sequences.
pub struct DecisionOptionView {
    pub id: Seq<char>,
    pub label: Seq<char>,
    pub description: Option<Seq<char>>,
}

impl View for ThreadDecisionOption {
    type V = DecisionOptionView;

    open spec fn view(&self) -> DecisionOptionView {
        DecisionOptionView { id: self.id@, label: self.label@, description: opt_text(self.description) }
    }
}

pub open spec fn option_views(s: Seq<ThreadDecisionOption>) -> Seq<DecisionOptionView> {
    s.map_values(|o: ThreadDecisionOption| o@)
}

/// A decision with its texts as character sequences.
pub struct DecisionView {
    pub id: Seq<char>,
    pub thread_id: Seq<char>,
    pub title: Seq<char>,
    pub description: Seq<char>,
    pub urgency: ThreadDecisionUrgency,
    pub status: ThreadDecisionStatus,
    pub options: Seq<DecisionOptionView>,
    pub recommendation: Option<Seq<char>>,
    pub source_turn_id: Option<Seq<char>>,
    pub resolved_at: Option<i64>,
    pub resolution: Option<Seq<char>>,
    pub selected_option_id: Option<Seq<char>>,
}

impl View for ThreadDecision {
    type V = DecisionView;

    open spec fn view(&self) -> DecisionView {
        DecisionView {
            id: self.id@,
            thread_id: self.thread_id@,
            title: self.title@,
            description: self.description@,
            urgency: self.urgency,
            status: self.status,
            options: option_views(self.options@),
            recommendation: opt_text(self.recommendation),
            source_turn_id: opt_text(self.source_turn_id),
            resolved_at: self.resolved_at,
            resolution: opt_text(self.resolution),
            selected_option_id: opt_text(self.selected_option_id),
        }
    }
}

pub open spec fn decision_views(s: Seq<ThreadDecision>) -> Seq<DecisionView> {
    s.map_values(|d: ThreadDecision| d@)
}

/// A requirement with its texts as character sequences.
pub struct RequirementView {
    pub thread_id: Seq<char>,
    pub objective: Option<Seq<char>>,
    pub status: ThreadRequirementStatus,
    pub summary: Seq<char>,
    pub decisions: Seq<DecisionView>,
    pub updated_at: Option<i64>,
}

impl View for ThreadRequirement {
    type V = RequirementView;

    open spec fn view(&self) -> RequirementView {
        RequirementView {
            thread_id: self.thread_id@,
            objective: opt_text(self.objective),
            status: self.status,
            summary: self.summary@,
            decisions: decision_views(self.decisions@),
            updated_at: self.updated_at,
        }
    }
}

/// The request parameters of a decision resolution, as character sequences.
pub struct ResolveParamsView {
    pub thread_id: Seq<char>,
    pub decision_id: Seq<char>,
    pub selected_option_id: Option<Seq<char>>,
    pub resolution: Option<Seq<char>>,
    pub defer: bool,
}

impl View for ThreadDecisionResolveParams {
    type V = ResolveParamsView;

    open spec fn view(&self) -> ResolveParamsView {
        ResolveParamsView {
            thread_id: self.thread_id@,
            decision_id: self.decision_id@,
            selected_option_id: opt_text(self.selected_option_id),
            resolution: opt_text(self.resolution),
            defer: self.defer,
        }
    }
}

/// A copy of an optional text.
pub fn copy_opt_text(o: &Option<String>) -> (r: Option<String>)
    ensures
        opt_text(r) == opt_text(*o),
{
    match o {
        Some(s) => Some(s.clone()),
        None => None,
    }
}

/// A copy of a decision option.
pub fn copy_option(o: &ThreadDecisionOption) -> (r: ThreadDecisionOption)
    ensures
        r@ == o@,
{
    ThreadDecisionOption {
        id: o.id.clone(),
        label: o.label.clone(),
        description: copy_opt_text(&o.description),
    }
}

/// A copy of a decision.
pub fn copy_decision(d: &ThreadDecision) -> (r: ThreadDecision)
    ensures
        r@ == d@,
{
    let mut options: Vec<ThreadDecisionOption> = Vec::new();
    let mut i: usize = 0;
    while i < d.options.len()
        invariant
            i <= d.options.len(),
            option_views(options@) == option_views(d.options@).take(i as int),
        decreases d.options.len() - i,
    {
        let o = copy_option(&d.options[i]);
        let ghost before = options@;
        options.push(o);
        assert(options@ == before.push(o));
        assert(option_views(before.push(o)) =~= option_views(before).push(o@));
        assert(option_views(options@) =~= option_views(d.options@).take(i + 1));
        i = i + 1;
    }
    assert(option_views(d.options@).take(d.options.len() as int) =~= option_views(d.options@));
    ThreadDecision {
        id: d.id.clone(),
        thread_id: d.thread_id.clone(),
        title: d.title.clone(),
        description: d.description.clone(),
        urgency: d.urgency,
        status: d.status,
        options,
        recommendation: copy_opt_text(&d.recommendation),
        source_turn_id: copy_opt_text(&d.source_turn_id),
        resolved_at: d.resolved_at,
        resolution: copy_opt_text(&d.resolution),
        selected_option_id: copy_opt_text(&d.selected_option_id),
    }
}

} // verus!
