//! The requirement overlay of the terminal interface as styled lines: the
//! objective, status, summary and decisions of a requirement, decisions most
//! urgent first. Drawing the lines is left to the caller.
use vstd::prelude::*;
use vstd::multiset::Multiset;
use vstd::string::StringExecFns;
use crate::protocol::{
    ThreadRequirementReadResponse,
    copy_decision, decision_views, opt_text, option_views, DecisionOptionView, DecisionView,
    RequirementView, ThreadDecision, ThreadDecisionOption, ThreadDecisionStatus,
    ThreadDecisionUrgency, ThreadRequirement, ThreadRequirementStatus,
};
use crate::text::{
    append_chars, from_chars, join, join_chars, lines, split_lines, to_chars, trim, trim_chars,
    views,
};

verus! {

/// How a span or a whole line is drawn.
#[derive(Debug, Clone, Copy, PartialEq, Eq, Structural)]
pub enum TextStyle {
    Plain,
    Bold,
    Italic,
    Dim,
}

#[derive(Debug, Clone, PartialEq, Eq)]
pub struct StyledSpan {
    pub text: String,
    pub style: TextStyle,
}

/// A line of spans, with a style for the line as a whole.
#[derive(Debug, Clone, PartialEq, Eq)]
pub struct StyledLine {
    pub spans: Vec<StyledSpan>,
    pub style: TextStyle,
}

pub struct SpanView {
    pub text: Seq<char>,
    pub style: TextStyle,
}

pub struct LineView {
    pub spans: Seq<SpanView>,
    pub style: TextStyle,
}

impl View for StyledSpan {
    type V = SpanView;

    open spec fn view(&self) -> SpanView {
        SpanView { text: self.text@, style: self.style }
    }
}

impl View for StyledLine {
    type V = LineView;

    open spec fn view(&self) -> LineView {
        LineView { spans: self.spans@.map_values(|s: StyledSpan| s@), style: self.style }
    }
}

pub open spec fn line_views(s: Seq<StyledLine>) -> Seq<LineView> {
    s.map_values(|l: StyledLine| l@)
}

pub open spec fn span(text: Seq<char>, style: TextStyle) -> SpanView {
    SpanView { text, style }
}

/// A line of one plain span, drawn in `style`.
pub open spec fn text_line(text: Seq<char>, style: TextStyle) -> LineView {
    LineView { spans: seq![span(text, TextStyle::Plain)], style }
}

pub open spec fn plain_line(text: Seq<char>) -> LineView {
    text_line(text, TextStyle::Plain)
}

pub open spec fn no_objective_text() -> Seq<char> {
    "No requirement objective set"@
}

pub open spec fn no_summary_text() -> Seq<char> {
    "No outcome summary available yet"@
}

pub open spec fn no_decisions_text() -> Seq<char> {
    "No decisions recorded yet"@
}

pub open spec fn requirement_status_text(status: ThreadRequirementStatus) -> Seq<char> {
    match status {
        ThreadRequirementStatus::NotStarted => "not started"@,
        ThreadRequirementStatus::Running => "running"@,
        ThreadRequirementStatus::WaitingOnDecision => "waiting on decision"@,
        ThreadRequirementStatus::Complete => "complete"@,
        ThreadRequirementStatus::Failed => "failed"@,
        ThreadRequirementStatus::Unknown => "unknown"@,
    }
}

pub open spec fn urgency_text(urgency: ThreadDecisionUrgency) -> Seq<char> {
    match urgency {
        ThreadDecisionUrgency::Immediate => "immediate"@,
        ThreadDecisionUrgency::Deferred => "deferred"@,
    }
}

pub open spec fn decision_status_text(status: ThreadDecisionStatus) -> Seq<char> {
    match status {
        ThreadDecisionStatus::Pending => "pending"@,
        ThreadDecisionStatus::Resolved => "resolved"@,
        ThreadDecisionStatus::Deferred => "deferred"@,
    }
}

pub open spec fn urgency_key(urgency: ThreadDecisionUrgency) -> u8 {
    match urgency {
        ThreadDecisionUrgency::Immediate => 0,
        ThreadDecisionUrgency::Deferred => 1,
    }
}

pub open spec fn decision_status_key(status: ThreadDecisionStatus) -> u8 {
    match status {
        ThreadDecisionStatus::Pending => 0,
        ThreadDecisionStatus::Deferred => 1,
        ThreadDecisionStatus::Resolved => 2,
    }
}

/// The label of a requirement status.
pub fn requirement_status_label(status: ThreadRequirementStatus) -> (r: &'static str)
    ensures
        r@ == requirement_status_text(status),
{
    match status {
        ThreadRequirementStatus::NotStarted => "not started",
        ThreadRequirementStatus::Running => "running",
        ThreadRequirementStatus::WaitingOnDecision => "waiting on decision",
        ThreadRequirementStatus::Complete => "complete",
        ThreadRequirementStatus::Failed => "failed",
        ThreadRequirementStatus::Unknown => "unknown",
    }
}

/// The label of a decision urgency.
pub fn urgency_label(urgency: ThreadDecisionUrgency) -> (r: &'static str)
    ensures
        r@ == urgency_text(urgency),
{
    match urgency {
        ThreadDecisionUrgency::Immediate => "immediate",
        ThreadDecisionUrgency::Deferred => "deferred",
    }
}

/// The label of a decision status.
pub fn decision_status_label(status: ThreadDecisionStatus) -> (r: &'static str)
    ensures
        r@ == decision_status_text(status),
{
    match status {
        ThreadDecisionStatus::Pending => "pending",
        ThreadDecisionStatus::Resolved => "resolved",
        ThreadDecisionStatus::Deferred => "deferred",
    }
}

/// Immediate decisions come before deferred ones.
pub fn urgency_sort_key(urgency: ThreadDecisionUrgency) -> (r: u8)
    ensures
        r == urgency_key(urgency),
{
    match urgency {
        ThreadDecisionUrgency::Immediate => 0,
        ThreadDecisionUrgency::Deferred => 1,
    }
}

/// Pending decisions come first, then deferred, then resolved ones.
pub fn decision_status_sort_key(status: ThreadDecisionStatus) -> (r: u8)
    ensures
        r == decision_status_key(status),
{
    match status {
        ThreadDecisionStatus::Pending => 0,
        ThreadDecisionStatus::Deferred => 1,
        ThreadDecisionStatus::Resolved => 2,
    }
}

/// Whether a decision has the given urgency key and status key.
pub open spec fn in_key_group(d: DecisionView, urgency: u8, status: u8) -> bool {
    urgency_key(d.urgency) == urgency && decision_status_key(d.status) == status
}

/// The decisions with the given keys, in their order.
pub open spec fn key_group(ds: Seq<DecisionView>, urgency: u8, status: u8) -> Seq<DecisionView> {
    ds.filter(|d: DecisionView| in_key_group(d, urgency, status))
}

/// The decisions in the order the overlay shows them: sorted by urgency key
/// and then status key, decisions with equal keys in their given order.
pub open spec fn display_order(ds: Seq<DecisionView>) -> Seq<DecisionView> {
    key_group(ds, 0, 0) + key_group(ds, 0, 1) + key_group(ds, 0, 2) + key_group(ds, 1, 0)
        + key_group(ds, 1, 1) + key_group(ds, 1, 2)
}

/// Appends the decisions with the given keys, in their order.
fn append_key_group(
    ds: &Vec<ThreadDecision>,
    urgency: u8,
    status: u8,
    out: &mut Vec<ThreadDecision>,
)
    ensures
        decision_views(final(out)@) == decision_views(old(out)@) + key_group(
            decision_views(ds@),
            urgency,
            status,
        ),
{
    let ghost dv = decision_views(ds@);
    let ghost start = decision_views(out@);
    let mut i: usize = 0;
    assert(dv.take(0) =~= Seq::<DecisionView>::empty());
    proof {
        reveal_with_fuel(Seq::filter, 1);
    }
    assert(start + key_group(dv.take(0), urgency, status) =~= start);
    while i < ds.len()
        invariant
            i <= ds.len(),
            dv == decision_views(ds@),
            decision_views(out@) == start + key_group(dv.take(i as int), urgency, status),
        decreases ds.len() - i,
    {
        let d = &ds[i];
        proof {
            assert(dv.take(i + 1) =~= dv.take(i as int).push(d@));
            dv.take(i as int).lemma_filter_push(
                d@,
                |x: DecisionView| in_key_group(x, urgency, status),
            );
        }
        if urgency_sort_key(d.urgency) == urgency && decision_status_sort_key(d.status) == status {
            let c = copy_decision(d);
            let ghost before = out@;
            out.push(c);
            assert(decision_views(out@) =~= decision_views(before).push(c@));
        }
        i = i + 1;
    }
    assert(dv.take(ds.len() as int) =~= dv);
}

/// The decisions in the order the overlay shows them: immediate before
/// deferred, and within each, pending before deferred before resolved;
/// decisions with equal keys keep their order.
pub fn order_decisions_for_display(ds: &Vec<ThreadDecision>) -> (r: Vec<ThreadDecision>)
    ensures
        decision_views(r@) == display_order(decision_views(ds@)),
{
    let mut out: Vec<ThreadDecision> = Vec::new();
    append_key_group(ds, 0, 0, &mut out);
    append_key_group(ds, 0, 1, &mut out);
    append_key_group(ds, 0, 2, &mut out);
    append_key_group(ds, 1, 0, &mut out);
    append_key_group(ds, 1, 1, &mut out);
    append_key_group(ds, 1, 2, &mut out);
    assert(decision_views(out@) =~= display_order(decision_views(ds@)));
    out
}

/// The rank of a decision in display order.
pub open spec fn display_rank(d: DecisionView) -> int {
    3 * urgency_key(d.urgency) + decision_status_key(d.status)
}

proof fn lemma_key_group_rank(ds: Seq<DecisionView>, u: u8, s: u8)
    ensures
        forall|i: int|
            0 <= i < key_group(ds, u, s).len() ==> display_rank(#[trigger] key_group(ds, u, s)[i])
                == 3 * u + s,
{
    assert forall|i: int| 0 <= i < key_group(ds, u, s).len() implies display_rank(
        #[trigger] key_group(ds, u, s)[i],
    ) == 3 * u + s by {
        ds.lemma_filter_pred(|x: DecisionView| in_key_group(x, u, s), i);
    }
}

/// The overlay shows decisions sorted: immediate before deferred and, with
/// equal urgency, pending before deferred before resolved.
pub proof fn law_display_order_is_sorted(ds: Seq<DecisionView>)
    ensures
        forall|i: int, j: int|
            0 <= i < j < display_order(ds).len() ==> display_rank(#[trigger] display_order(ds)[i])
                <= display_rank(#[trigger] display_order(ds)[j]),
{
    lemma_key_group_rank(ds, 0, 0);
    lemma_key_group_rank(ds, 0, 1);
    lemma_key_group_rank(ds, 0, 2);
    lemma_key_group_rank(ds, 1, 0);
    lemma_key_group_rank(ds, 1, 1);
    lemma_key_group_rank(ds, 1, 2);
    let g0 = key_group(ds, 0, 0);
    let g1 = key_group(ds, 0, 1);
    let g2 = key_group(ds, 0, 2);
    let g3 = key_group(ds, 1, 0);
    let g4 = key_group(ds, 1, 1);
    let g5 = key_group(ds, 1, 2);
    let o = display_order(ds);
    assert forall|i: int| 0 <= i < o.len() implies {
        let r = display_rank(#[trigger] o[i]);
        &&& (i < g0.len() ==> r == 0)
        &&& (g0.len() <= i < g0.len() + g1.len() ==> r == 1)
        &&& (g0.len() + g1.len() <= i < g0.len() + g1.len() + g2.len() ==> r == 2)
        &&& (g0.len() + g1.len() + g2.len() <= i < g0.len() + g1.len() + g2.len() + g3.len() ==> r == 3)
        &&& (g0.len() + g1.len() + g2.len() + g3.len() <= i < g0.len() + g1.len() + g2.len() + g3.len() + g4.len() ==> r == 4)
        &&& (g0.len() + g1.len() + g2.len() + g3.len() + g4.len() <= i ==> r == 5)
    } by {
        let n0 = g0.len() as int;
        let n1 = n0 + g1.len();
        let n2 = n1 + g2.len();
        let n3 = n2 + g3.len();
        let n4 = n3 + g4.len();
        if i < n0 {
            assert(o[i] == g0[i]);
        } else if i < n1 {
            assert(o[i] == g1[i - n0]);
        } else if i < n2 {
            assert(o[i] == g2[i - n1]);
        } else if i < n3 {
            assert(o[i] == g3[i - n2]);
        } else if i < n4 {
            assert(o[i] == g4[i - n3]);
        } else {
            assert(o[i] == g5[i - n4]);
        }
    }
}

proof fn lemma_filter_keeps_all(s: Seq<DecisionView>, p: spec_fn(DecisionView) -> bool)
    requires
        forall|i: int| 0 <= i < s.len() ==> p(#[trigger] s[i]),
    ensures
        s.filter(p) == s,
    decreases s.len(),
{
    reveal_with_fuel(Seq::filter, 1);
    if s.len() > 0 {
        let t = s.drop_last();
        assert forall|i: int| 0 <= i < t.len() implies p(#[trigger] t[i]) by {
            assert(t[i] == s[i]);
        }
        lemma_filter_keeps_all(t, p);
        assert(p(s[s.len() - 1]));
        assert(t.push(s.last()) =~= s);
    }
}

proof fn lemma_filter_keeps_none(s: Seq<DecisionView>, p: spec_fn(DecisionView) -> bool)
    requires
        forall|i: int| 0 <= i < s.len() ==> !p(#[trigger] s[i]),
    ensures
        s.filter(p) == Seq::<DecisionView>::empty(),
    decreases s.len(),
{
    reveal_with_fuel(Seq::filter, 1);
    if s.len() > 0 {
        let t = s.drop_last();
        assert forall|i: int| 0 <= i < t.len() implies !p(#[trigger] t[i]) by {
            assert(t[i] == s[i]);
        }
        lemma_filter_keeps_none(t, p);
        assert(!p(s[s.len() - 1]));
    } else {
        assert(s =~= Seq::<DecisionView>::empty());
    }
}

/// Filtering the group with keys `(gu, gs)` by the keys `(u, s)` keeps it
/// whole when the keys agree and leaves nothing otherwise.
proof fn lemma_group_filtered(ds: Seq<DecisionView>, gu: u8, gs: u8, u: u8, s: u8)
    ensures
        key_group(ds, gu, gs).filter(|d: DecisionView| in_key_group(d, u, s)) == if gu == u && gs
            == s {
            key_group(ds, gu, gs)
        } else {
            Seq::<DecisionView>::empty()
        },
{
    let g = key_group(ds, gu, gs);
    let p = |d: DecisionView| in_key_group(d, u, s);
    assert forall|i: int| 0 <= i < g.len() implies in_key_group(#[trigger] g[i], gu, gs) by {
        ds.lemma_filter_pred(|x: DecisionView| in_key_group(x, gu, gs), i);
    }
    if gu == u && gs == s {
        lemma_filter_keeps_all(g, p);
    } else {
        lemma_filter_keeps_none(g, p);
    }
}

/// The overlay's order is a stable sort: the decisions that share an
/// urgency key and a status key appear in display order exactly as they
/// appear in the requirement, in the same relative order.
pub proof fn law_display_order_is_stable(ds: Seq<DecisionView>, u: u8, s: u8)
    ensures
        display_order(ds).filter(|d: DecisionView| in_key_group(d, u, s)) == ds.filter(
            |d: DecisionView| in_key_group(d, u, s),
        ),
{
    let p = |d: DecisionView| in_key_group(d, u, s);
    let g0 = key_group(ds, 0, 0);
    let g1 = key_group(ds, 0, 1);
    let g2 = key_group(ds, 0, 2);
    let g3 = key_group(ds, 1, 0);
    let g4 = key_group(ds, 1, 1);
    let g5 = key_group(ds, 1, 2);
    Seq::filter_distributes_over_add(g0 + g1 + g2 + g3 + g4, g5, p);
    Seq::filter_distributes_over_add(g0 + g1 + g2 + g3, g4, p);
    Seq::filter_distributes_over_add(g0 + g1 + g2, g3, p);
    Seq::filter_distributes_over_add(g0 + g1, g2, p);
    Seq::filter_distributes_over_add(g0, g1, p);
    lemma_group_filtered(ds, 0, 0, u, s);
    lemma_group_filtered(ds, 0, 1, u, s);
    lemma_group_filtered(ds, 0, 2, u, s);
    lemma_group_filtered(ds, 1, 0, u, s);
    lemma_group_filtered(ds, 1, 1, u, s);
    lemma_group_filtered(ds, 1, 2, u, s);
    let e = Seq::<DecisionView>::empty();
    let target = ds.filter(p);
    assert(target == key_group(ds, u, s));
    if u == 0 && s == 0 {
        assert(display_order(ds).filter(p) =~= g0 + e + e + e + e + e);
    } else if u == 0 && s == 1 {
        assert(display_order(ds).filter(p) =~= e + g1 + e + e + e + e);
    } else if u == 0 && s == 2 {
        assert(display_order(ds).filter(p) =~= e + e + g2 + e + e + e);
    } else if u == 1 && s == 0 {
        assert(display_order(ds).filter(p) =~= e + e + e + g3 + e + e);
    } else if u == 1 && s == 1 {
        assert(display_order(ds).filter(p) =~= e + e + e + e + g4 + e);
    } else if u == 1 && s == 2 {
        assert(display_order(ds).filter(p) =~= e + e + e + e + e + g5);
    } else {
        assert forall|i: int| 0 <= i < ds.len() implies !p(#[trigger] ds[i]) by {}
        lemma_filter_keeps_none(ds, p);
        assert(display_order(ds).filter(p) =~= e + e + e + e + e + e);
    }
}

pub open spec fn groups_multiset(ds: Seq<DecisionView>) -> Multiset<DecisionView> {
    key_group(ds, 0, 0).to_multiset().add(key_group(ds, 0, 1).to_multiset()).add(
        key_group(ds, 0, 2).to_multiset(),
    ).add(key_group(ds, 1, 0).to_multiset()).add(key_group(ds, 1, 1).to_multiset()).add(
        key_group(ds, 1, 2).to_multiset(),
    )
}

proof fn lemma_key_group_push(ds: Seq<DecisionView>, x: DecisionView, u: u8, s: u8)
    ensures
        key_group(ds.push(x), u, s).to_multiset() == if in_key_group(x, u, s) {
            key_group(ds, u, s).to_multiset().insert(x)
        } else {
            key_group(ds, u, s).to_multiset()
        },
{
    broadcast use vstd::seq_lib::group_to_multiset_ensures;

    ds.lemma_filter_push(x, |d: DecisionView| in_key_group(d, u, s));
}

proof fn lemma_groups_multiset(ds: Seq<DecisionView>)
    ensures
        groups_multiset(ds) == ds.to_multiset(),
    decreases ds.len(),
{
    broadcast use vstd::seq_lib::group_to_multiset_ensures;
    broadcast use vstd::multiset::group_multiset_axioms;

    if ds.len() == 0 {
        reveal_with_fuel(Seq::filter, 1);
        assert(groups_multiset(ds) =~= Multiset::empty());
        assert(ds.to_multiset() =~= Multiset::empty());
    } else {
        let prev = ds.drop_last();
        let x = ds.last();
        assert(prev.push(x) =~= ds);
        lemma_groups_multiset(prev);
        lemma_key_group_push(prev, x, 0, 0);
        lemma_key_group_push(prev, x, 0, 1);
        lemma_key_group_push(prev, x, 0, 2);
        lemma_key_group_push(prev, x, 1, 0);
        lemma_key_group_push(prev, x, 1, 1);
        lemma_key_group_push(prev, x, 1, 2);
        assert(groups_multiset(ds) =~= groups_multiset(prev).insert(x));
    }
}

/// The overlay shows every decision, each as often as it occurs: display
/// order is a rearrangement.
pub proof fn law_display_order_is_permutation(ds: Seq<DecisionView>)
    ensures
        display_order(ds).to_multiset() == ds.to_multiset(),
{
    broadcast use vstd::seq_lib::lemma_multiset_commutative;

    lemma_groups_multiset(ds);
    let g0 = key_group(ds, 0, 0);
    let g1 = key_group(ds, 0, 1);
    let g2 = key_group(ds, 0, 2);
    let g3 = key_group(ds, 1, 0);
    let g4 = key_group(ds, 1, 1);
    let g5 = key_group(ds, 1, 2);
    assert((g0 + g1).to_multiset() == g0.to_multiset().add(g1.to_multiset()));
    assert((g0 + g1 + g2).to_multiset() == (g0 + g1).to_multiset().add(g2.to_multiset()));
    assert((g0 + g1 + g2 + g3).to_multiset() == (g0 + g1 + g2).to_multiset().add(g3.to_multiset()));
    assert((g0 + g1 + g2 + g3 + g4).to_multiset() == (g0 + g1 + g2 + g3).to_multiset().add(
        g4.to_multiset(),
    ));
    assert((g0 + g1 + g2 + g3 + g4 + g5).to_multiset() == (g0 + g1 + g2 + g3 + g4).to_multiset().add(
        g5.to_multiset(),
    ));
}

/// The lines of a value, or the fallback in italics when the value is absent
/// or blank. The value is trimmed and shown line by line.
pub open spec fn text_or_fallback_lines(value: Option<Seq<char>>, fallback: Seq<char>) -> Seq<
    LineView,
> {
    match value {
        Some(v) => if trim(v).len() > 0 {
            lines(trim(v)).map_values(|l: Seq<char>| plain_line(l))
        } else {
            seq![text_line(fallback, TextStyle::Italic)]
        },
        None => seq![text_line(fallback, TextStyle::Italic)],
    }
}

/// The line at `index` of an indented field: the first names the field.
pub open spec fn indented_line(label: Seq<char>, index: int, line: Seq<char>) -> LineView {
    if index == 0 {
        plain_line("  "@ + label + ": "@ + trim(line))
    } else {
        plain_line("  "@ + trim(line))
    }
}

/// A labelled field, indented, one line per line of its trimmed value;
/// nothing when the value is blank.
pub open spec fn indented_field_lines(label: Seq<char>, value: Seq<char>) -> Seq<LineView> {
    let v = trim(value);
    if v.len() == 0 {
        Seq::empty()
    } else {
        Seq::new(lines(v).len(), |i: int| indented_line(label, i, lines(v)[i]))
    }
}

/// An option as the overlay names it: its label, with its trimmed description
/// in parentheses when that is not blank.
pub open spec fn option_text(o: DecisionOptionView) -> Seq<char> {
    match o.description {
        Some(d) => if trim(d).len() > 0 {
            o.label + " ("@ + trim(d) + ")"@
        } else {
            o.label
        },
        None => o.label,
    }
}

pub open spec fn options_text(os: Seq<DecisionOptionView>) -> Seq<char> {
    join(os.map_values(|o: DecisionOptionView| option_text(o)), "; "@)
}

/// The first line of a decision: its urgency in bold and its status, then its title.
pub open spec fn decision_header(d: DecisionView) -> LineView {
    LineView {
        spans: seq![
            span("- "@, TextStyle::Plain),
            span(urgency_text(d.urgency), TextStyle::Bold),
            span(" / "@, TextStyle::Dim),
            span(decision_status_text(d.status), TextStyle::Plain),
            span(": "@, TextStyle::Dim),
            span(d.title, TextStyle::Plain),
        ],
        style: TextStyle::Plain,
    }
}

/// The lines of one decision: its header, then its description, resolution,
/// recommendation and options, each where present and not blank.
pub open spec fn decision_lines(d: DecisionView) -> Seq<LineView> {
    seq![decision_header(d)] + indented_field_lines("Description"@, d.description) + (
    match d.resolution {
        Some(r) => indented_field_lines("Resolution"@, r),
        None => Seq::empty(),
    }) + (match d.recommendation {
        Some(r) => indented_field_lines("Recommendation"@, r),
        None => Seq::empty(),
    }) + (if d.options.len() > 0 {
        indented_field_lines("Options"@, options_text(d.options))
    } else {
        Seq::empty()
    })
}

pub open spec fn decision_block(ds: Seq<DecisionView>) -> Seq<LineView>
    decreases ds.len(),
{
    if ds.len() == 0 {
        Seq::empty()
    } else {
        decision_block(ds.drop_last()) + decision_lines(ds.last())
    }
}

/// The lines of the requirement overlay: sections for the objective, the
/// status, the summary and the decisions, in that order.
pub open spec fn requirement_lines_of(req: RequirementView) -> Seq<LineView> {
    seq![text_line("Objective"@, TextStyle::Bold)] + text_or_fallback_lines(
        req.objective,
        no_objective_text(),
    ) + seq![
        plain_line(Seq::empty()),
        text_line("Status"@, TextStyle::Bold),
        plain_line(requirement_status_text(req.status)),
        plain_line(Seq::empty()),
        text_line("Summary"@, TextStyle::Bold),
    ] + text_or_fallback_lines(Some(req.summary), no_summary_text()) + seq![
        plain_line(Seq::empty()),
        text_line("Decisions"@, TextStyle::Bold),
    ] + (if req.decisions.len() == 0 {
        seq![plain_line(no_decisions_text())]
    } else {
        decision_block(display_order(req.decisions))
    })
}

/// A line of one plain span, drawn in `style`.
fn make_text_line(text: &Vec<char>, style: TextStyle) -> (l: StyledLine)
    ensures
        l@ == text_line(text@, style),
{
    let spans = vec![StyledSpan { text: from_chars(text), style: TextStyle::Plain }];
    let l = StyledLine { spans, style };
    assert(l@.spans =~= seq![span(text@, TextStyle::Plain)]);
    l
}

fn push_line(out: &mut Vec<StyledLine>, l: StyledLine)
    ensures
        line_views(final(out)@) == line_views(old(out)@) + seq![l@],
{
    out.push(l);
    assert(line_views(out@) =~= line_views(old(out)@) + seq![l@]);
}

/// Appends each line of the text as a plain line.
fn push_multiline(out: &mut Vec<StyledLine>, value: &Vec<char>)
    ensures
        line_views(final(out)@) == line_views(old(out)@) + lines(value@).map_values(
            |l: Seq<char>| plain_line(l),
        ),
{
    let ls = split_lines(value);
    let ghost start = line_views(out@);
    let ghost target = lines(value@).map_values(|l: Seq<char>| plain_line(l));
    let mut i: usize = 0;
    assert(start + target.take(0) =~= start);
    while i < ls.len()
        invariant
            i <= ls.len(),
            views(ls@) == lines(value@),
            target == lines(value@).map_values(|l: Seq<char>| plain_line(l)),
            line_views(out@) == start + target.take(i as int),
        decreases ls.len() - i,
    {
        let l = make_text_line(&ls[i], TextStyle::Plain);
        push_line(out, l);
        assert(target.take(i + 1) =~= target.take(i as int).push(target[i as int]));
        assert(line_views(out@) =~= start + target.take(i + 1));
        i = i + 1;
    }
    assert(target.take(ls.len() as int) =~= target);
}

/// Appends the trimmed value line by line, or the fallback in italics when
/// the value is absent or blank.
fn push_text_or_fallback(out: &mut Vec<StyledLine>, value: &Option<String>, fallback: &str)
    ensures
        line_views(final(out)@) == line_views(old(out)@) + text_or_fallback_lines(
            opt_text(*value),
            fallback@,
        ),
{
    let fallback_chars = to_chars(fallback);
    match value {
        Some(v) => {
            let cs = to_chars(v.as_str());
            let t = trim_chars(&cs);
            if t.len() > 0 {
                push_multiline(out, &t);
                return ;
            }
        },
        None => {},
    }
    let l = make_text_line(&fallback_chars, TextStyle::Italic);
    push_line(out, l);
}

/// `a` followed by `b`.
fn concat_chars(a: &Vec<char>, b: &Vec<char>) -> (r: Vec<char>)
    ensures
        r@ == a@ + b@,
{
    let mut r = crate::text::slice_chars(a, 0, a.len());
    assert(r@ =~= a@);
    append_chars(&mut r, b);
    r
}

/// Appends a labelled field, indented, one line per line of its trimmed
/// value; nothing when the value is blank.
fn push_indented_field(out: &mut Vec<StyledLine>, label: &str, value: &Vec<char>)
    ensures
        line_views(final(out)@) == line_views(old(out)@) + indented_field_lines(label@, value@),
{
    let v = trim_chars(value);
    if v.len() == 0 {
        assert(line_views(out@) + Seq::<LineView>::empty() =~= line_views(out@));
        return ;
    }
    let ls = split_lines(&v);
    let ghost lv = lines(v@);
    let ghost start = line_views(out@);
    let ghost target = Seq::new(lv.len(), |i: int| indented_line(label@, i, lv[i]));
    let indent = to_chars("  ");
    let label_chars = to_chars(label);
    let colon = to_chars(": ");
    let mut i: usize = 0;
    assert(start + target.take(0) =~= start);
    while i < ls.len()
        invariant
            i <= ls.len(),
            views(ls@) == lv,
            lv == lines(v@),
            target == Seq::new(lv.len(), |i: int| indented_line(label@, i, lv[i])),
            indent@ == "  "@,
            label_chars@ == label@,
            colon@ == ": "@,
            line_views(out@) == start + target.take(i as int),
        decreases ls.len() - i,
    {
        let t = trim_chars(&ls[i]);
        let text = if i == 0 {
            let a = concat_chars(&indent, &label_chars);
            let b = concat_chars(&a, &colon);
            concat_chars(&b, &t)
        } else {
            concat_chars(&indent, &t)
        };
        let l = make_text_line(&text, TextStyle::Plain);
        assert(l@ == target[i as int]);
        push_line(out, l);
        assert(target.take(i + 1) =~= target.take(i as int).push(target[i as int]));
        assert(line_views(out@) =~= start + target.take(i + 1));
        i = i + 1;
    }
    assert(target.take(ls.len() as int) =~= target);
}

/// An option as the overlay names it.
fn option_chars(o: &ThreadDecisionOption) -> (r: Vec<char>)
    ensures
        r@ == option_text(o@),
{
    let label = to_chars(o.label.as_str());
    match &o.description {
        Some(d) => {
            let dc = to_chars(d.as_str());
            let t = trim_chars(&dc);
            if t.len() > 0 {
                let open = to_chars(" (");
                let close = to_chars(")");
                let a = concat_chars(&label, &open);
                let b = concat_chars(&a, &t);
                concat_chars(&b, &close)
            } else {
                label
            }
        },
        None => label,
    }
}

/// The options of a decision, named and joined with `; `.
fn options_chars(os: &Vec<ThreadDecisionOption>) -> (r: Vec<char>)
    ensures
        r@ == options_text(option_views(os@)),
{
    let ghost target = option_views(os@).map_values(|o: DecisionOptionView| option_text(o));
    let mut parts: Vec<Vec<char>> = Vec::new();
    let mut i: usize = 0;
    while i < os.len()
        invariant
            i <= os.len(),
            target == option_views(os@).map_values(|o: DecisionOptionView| option_text(o)),
            views(parts@) == target.take(i as int),
        decreases os.len() - i,
    {
        let p = option_chars(&os[i]);
        let ghost before = views(parts@);
        parts.push(p);
        assert(views(parts@) =~= before.push(p@));
        assert(target.take(i + 1) =~= target.take(i as int).push(target[i as int]));
        i = i + 1;
    }
    assert(target.take(os.len() as int) =~= target);
    let sep = to_chars("; ");
    join_chars(&parts, &sep)
}

fn make_span(text: &str, style: TextStyle) -> (s: StyledSpan)
    ensures
        s@ == span(text@, style),
{
    StyledSpan { text: text.to_string(), style }
}

/// The first line of a decision.
fn decision_header_line(d: &ThreadDecision) -> (l: StyledLine)
    ensures
        l@ == decision_header(d@),
{
    let spans = vec![
        make_span("- ", TextStyle::Plain),
        make_span(urgency_label(d.urgency), TextStyle::Bold),
        make_span(" / ", TextStyle::Dim),
        make_span(decision_status_label(d.status), TextStyle::Plain),
        make_span(": ", TextStyle::Dim),
        StyledSpan { text: d.title.clone(), style: TextStyle::Plain },
    ];
    let l = StyledLine { spans, style: TextStyle::Plain };
    assert(l@.spans =~= decision_header(d@).spans);
    l
}

/// Appends the lines of one decision.
fn push_decision(out: &mut Vec<StyledLine>, d: &ThreadDecision)
    ensures
        line_views(final(out)@) == line_views(old(out)@) + decision_lines(d@),
{
    let ghost start = line_views(out@);
    let header = decision_header_line(d);
    push_line(out, header);
    let description = to_chars(d.description.as_str());
    push_indented_field(out, "Description", &description);
    match &d.resolution {
        Some(r) => {
            let rc = to_chars(r.as_str());
            push_indented_field(out, "Resolution", &rc);
        },
        None => {},
    }
    match &d.recommendation {
        Some(r) => {
            let rc = to_chars(r.as_str());
            push_indented_field(out, "Recommendation", &rc);
        },
        None => {},
    }
    if d.options.len() > 0 {
        let oc = options_chars(&d.options);
        push_indented_field(out, "Options", &oc);
    }
    assert(line_views(out@) =~= start + decision_lines(d@));
}

/// The lines of the requirement overlay: sections for the objective, the
/// status, the summary and the decisions (most urgent first), each with a
/// fallback text when empty.
pub fn requirement_lines(requirement: &ThreadRequirement) -> (r: Vec<StyledLine>)
    ensures
        line_views(r@) == requirement_lines_of(requirement@),
{
    let mut lines_out: Vec<StyledLine> = Vec::new();
    let empty: Vec<char> = Vec::new();
    push_line(&mut lines_out, make_text_line(&to_chars("Objective"), TextStyle::Bold));
    push_text_or_fallback(&mut lines_out, &requirement.objective, "No requirement objective set");
    push_line(&mut lines_out, make_text_line(&empty, TextStyle::Plain));
    push_line(&mut lines_out, make_text_line(&to_chars("Status"), TextStyle::Bold));
    push_line(
        &mut lines_out,
        make_text_line(&to_chars(requirement_status_label(requirement.status)), TextStyle::Plain),
    );
    push_line(&mut lines_out, make_text_line(&empty, TextStyle::Plain));
    push_line(&mut lines_out, make_text_line(&to_chars("Summary"), TextStyle::Bold));
    let summary = Some(requirement.summary.clone());
    push_text_or_fallback(&mut lines_out, &summary, "No outcome summary available yet");
    push_line(&mut lines_out, make_text_line(&empty, TextStyle::Plain));
    push_line(&mut lines_out, make_text_line(&to_chars("Decisions"), TextStyle::Bold));
    let ghost before_decisions = line_views(lines_out@);
    if requirement.decisions.len() == 0 {
        push_line(&mut lines_out, make_text_line(&to_chars("No decisions recorded yet"), TextStyle::Plain));
    } else {
        let ordered = order_decisions_for_display(&requirement.decisions);
        let ghost ov = decision_views(ordered@);
        let mut i: usize = 0;
        assert(ov.take(0) =~= Seq::<DecisionView>::empty());
        assert(before_decisions + decision_block(ov.take(0)) =~= before_decisions);
        while i < ordered.len()
            invariant
                i <= ordered.len(),
                ov == decision_views(ordered@),
                line_views(lines_out@) == before_decisions + decision_block(ov.take(i as int)),
            decreases ordered.len() - i,
        {
            push_decision(&mut lines_out, &ordered[i]);
            assert(ov.take(i + 1).drop_last() =~= ov.take(i as int));
            assert(ov.take(i + 1).last() == ordered@[i as int]@);
            assert(line_views(lines_out@) =~= before_decisions + decision_block(ov.take(i + 1)));
            i = i + 1;
        }
        assert(ov.take(ordered.len() as int) =~= ov);
    }
    assert(line_views(lines_out@) =~= requirement_lines_of(requirement@));
    lines_out
}

/// What the interface does with the answer to a requirement read it asked for.
#[derive(Debug, Clone, PartialEq, Eq)]
pub enum RequirementViewAction {
    /// The user has moved to another thread meanwhile: nothing.
    Ignore,
    /// Open the overlay with these lines.
    ShowOverlay(Vec<StyledLine>),
    /// Show this error message in the chat.
    ShowError(String),
}

pub open spec fn read_failure_text(err: Seq<char>) -> Seq<char> {
    "Failed to read requirement outcome: "@ + err
}

/// What the interface does with the answer for thread `thread_id` while
/// `displayed_thread_id` is shown: nothing unless that is the same thread;
/// then the overlay of the requirement read, or the error.
pub fn requirement_view_action(
    displayed_thread_id: &Option<String>,
    thread_id: &String,
    result: Result<ThreadRequirementReadResponse, String>,
) -> (r: RequirementViewAction)
    ensures
        opt_text(*displayed_thread_id) != Some(thread_id@) ==> r is Ignore,
        opt_text(*displayed_thread_id) == Some(thread_id@) ==> match result {
            Ok(resp) => r matches RequirementViewAction::ShowOverlay(ls) && line_views(ls@)
                == requirement_lines_of(resp.requirement@),
            Err(e) => r matches RequirementViewAction::ShowError(m) && m@ == read_failure_text(e@),
        },
{
    let same = match displayed_thread_id {
        Some(d) => *d == *thread_id,
        None => false,
    };
    if !same {
        return RequirementViewAction::Ignore;
    }
    match result {
        Ok(response) => RequirementViewAction::ShowOverlay(requirement_lines(&response.requirement)),
        Err(e) => RequirementViewAction::ShowError(
            String::from_str("Failed to read requirement outcome: ").concat(e.as_str()),
        ),
    }
}

} // verus!
