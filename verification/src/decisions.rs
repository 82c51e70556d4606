//! Decisions derived from plan items: every non-empty line of a plan, with
//! its bullet, checkbox or number marker removed, is one pending decision.
use vstd::prelude::*;
use crate::history::{history_items, item_views, turn_views, ItemView, ThreadItem, Turn, TurnView};
use crate::protocol::{
    copy_decision, decision_views, DecisionView, ThreadDecision, ThreadDecisionStatus,
    ThreadDecisionUrgency,
};
use crate::text::{
    decimal, lemma_decimal_digits, lemma_decimal_injective, from_chars, in_class, leading_count, leading_len, lines, push_decimal, slice_chars,
    split_lines, starts_with, starts_with_chars, strip_start, strip_start_chars, to_chars,
    trim, trim_chars, trim_start, trim_start_chars, views, char_in_class, CharClass,
};

verus! {

pub open spec fn open_checkbox() -> Seq<char> {
    seq!['[', ' ', ']']
}

pub open spec fn checked_checkbox() -> Seq<char> {
    seq!['[', 'x', ']']
}

/// The text without a leading `[ ]` or `[x]` and the white space after it.
pub open spec fn without_checkbox(v: Seq<char>) -> Seq<char> {
    if starts_with(v, open_checkbox()) || starts_with(v, checked_checkbox()) {
        trim_start(v.skip(3))
    } else {
        v
    }
}

/// The text without a leading list number: when the leading digits (possibly
/// none) are followed by `.` or `)`, the digits, every `.` and `)` after them
/// and the white space after those go.
pub open spec fn without_list_number(v: Seq<char>) -> Seq<char> {
    let d = leading_count(v, CharClass::AsciiDigit);
    if d < v.len() && in_class(CharClass::NumberMark, v[d as int]) {
        trim_start(strip_start(v.skip(d as int), CharClass::NumberMark))
    } else {
        v
    }
}

/// A plan line reduced to its title: trimmed, without bullet markers, a
/// checkbox or a list number.
pub open spec fn cleaned_plan_line(line: Seq<char>) -> Seq<char> {
    without_list_number(
        without_checkbox(trim_start(strip_start(trim(line), CharClass::Bullet))),
    )
}

/// The titles of a plan: its cleaned lines that are not empty.
pub open spec fn plan_titles(text: Seq<char>) -> Seq<Seq<char>> {
    lines(text).map_values(|l: Seq<char>| cleaned_plan_line(l)).filter(
        |t: Seq<char>| t.len() > 0,
    )
}

/// The id of the decision for the title at `index` of plan `plan_id`.
pub open spec fn decision_id(plan_id: Seq<char>, index: nat) -> Seq<char> {
    plan_id + seq![':'] + decimal(index)
}

/// The decision that the title at `index` of plan `plan_id` in turn `turn_id` stands for.
pub open spec fn pending_decision(
    thread_id: Seq<char>,
    turn_id: Seq<char>,
    plan_id: Seq<char>,
    index: nat,
    title: Seq<char>,
) -> DecisionView {
    DecisionView {
        id: decision_id(plan_id, index),
        thread_id,
        title,
        description: Seq::empty(),
        urgency: ThreadDecisionUrgency::Deferred,
        status: ThreadDecisionStatus::Pending,
        options: Seq::empty(),
        recommendation: None,
        source_turn_id: Some(turn_id),
        resolved_at: None,
        resolution: None,
        selected_option_id: None,
    }
}

pub open spec fn plan_decisions(
    thread_id: Seq<char>,
    turn_id: Seq<char>,
    plan_id: Seq<char>,
    titles: Seq<Seq<char>>,
) -> Seq<DecisionView> {
    Seq::new(
        titles.len(),
        |k: int| pending_decision(thread_id, turn_id, plan_id, k as nat, titles[k]),
    )
}

/// The decisions of one item: those of its plan lines, if it is a plan.
pub open spec fn item_decisions(thread_id: Seq<char>, turn_id: Seq<char>, item: ItemView) -> Seq<
    DecisionView,
> {
    match item {
        ItemView::Plan { id, text } => plan_decisions(thread_id, turn_id, id, plan_titles(text)),
        _ => Seq::empty(),
    }
}

/// The decisions of the items of one turn, in order.
pub open spec fn items_decisions(thread_id: Seq<char>, turn_id: Seq<char>, items: Seq<ItemView>) -> Seq<
    DecisionView,
>
    decreases items.len(),
{
    if items.len() == 0 {
        Seq::empty()
    } else {
        items_decisions(thread_id, turn_id, items.drop_last()) + item_decisions(
            thread_id,
            turn_id,
            items.last(),
        )
    }
}

/// The decisions of all turns, in order of turns and items.
pub open spec fn derived_decisions(thread_id: Seq<char>, turns: Seq<TurnView>) -> Seq<DecisionView>
    decreases turns.len(),
{
    if turns.len() == 0 {
        Seq::empty()
    } else {
        derived_decisions(thread_id, turns.drop_last()) + items_decisions(
            thread_id,
            turns.last().id,
            turns.last().items,
        )
    }
}

/// Whether a decision passes the optional status and urgency filters.
pub open spec fn decision_matches(
    d: DecisionView,
    status: Option<ThreadDecisionStatus>,
    urgency: Option<ThreadDecisionUrgency>,
) -> bool {
    &&& (status matches Some(s) ==> d.status == s)
    &&& (urgency matches Some(u) ==> d.urgency == u)
}

/// The decisions that pass the filters, in their order.
pub open spec fn filtered_decisions(
    ds: Seq<DecisionView>,
    status: Option<ThreadDecisionStatus>,
    urgency: Option<ThreadDecisionUrgency>,
) -> Seq<DecisionView> {
    ds.filter(|d: DecisionView| decision_matches(d, status, urgency))
}

/// A plan line reduced to its title.
pub fn clean_plan_chars(line: &Vec<char>) -> (r: Vec<char>)
    ensures
        r@ == cleaned_plan_line(line@),
{
    let t = trim_chars(line);
    let b = strip_start_chars(&t, CharClass::Bullet);
    let mut v = trim_start_chars(&b);
    let open: Vec<char> = vec!['[', ' ', ']'];
    let checked: Vec<char> = vec!['[', 'x', ']'];
    assert(open@ =~= open_checkbox());
    assert(checked@ =~= checked_checkbox());
    if starts_with_chars(&v, &open) || starts_with_chars(&v, &checked) {
        let rest = slice_chars(&v, 3, v.len());
        assert(rest@ =~= v@.skip(3));
        v = trim_start_chars(&rest);
    }
    let ghost w = v@;
    proof {
        crate::text::lemma_leading_count_bound(w, CharClass::AsciiDigit);
    }
    let d = leading_len(&v, CharClass::AsciiDigit);
    if d < v.len() && char_in_class(CharClass::NumberMark, v[d]) {
        let rest = slice_chars(&v, d, v.len());
        assert(rest@ =~= w.skip(d as int));
        let marks_gone = strip_start_chars(&rest, CharClass::NumberMark);
        trim_start_chars(&marks_gone)
    } else {
        v
    }
}

/// A plan line reduced to its title: trimmed, without bullet markers, a
/// checkbox or a list number.
pub fn clean_plan_line(line: &str) -> (r: String)
    ensures
        r@ == cleaned_plan_line(line@),
{
    let cs = to_chars(line);
    let cleaned = clean_plan_chars(&cs);
    from_chars(&cleaned)
}

/// The titles of a plan, as character vectors.
fn plan_title_chars(text: &str) -> (r: Vec<Vec<char>>)
    ensures
        views(r@) == plan_titles(text@),
{
    let cs = to_chars(text);
    let ls = split_lines(&cs);
    let ghost lv = views(ls@);
    let ghost cleaned = lv.map_values(|l: Seq<char>| cleaned_plan_line(l));
    let mut out: Vec<Vec<char>> = Vec::new();
    let mut i: usize = 0;
    assert(cleaned.take(0) =~= Seq::<Seq<char>>::empty());
    while i < ls.len()
        invariant
            i <= ls.len(),
            lv == views(ls@),
            cleaned == lv.map_values(|l: Seq<char>| cleaned_plan_line(l)),
            views(out@) == cleaned.take(i as int).filter(|t: Seq<char>| t.len() > 0),
        decreases ls.len() - i,
    {
        let title = clean_plan_chars(&ls[i]);
        let ghost before = views(out@);
        assert(cleaned.take(i + 1) =~= cleaned.take(i as int).push(title@));
        proof {
            cleaned.take(i as int).lemma_filter_push(title@, |t: Seq<char>| t.len() > 0);
        }
        if title.len() > 0 {
            out.push(title);
            assert(views(out@) =~= before.push(cleaned[i as int]));
        }
        i = i + 1;
    }
    assert(cleaned.take(ls.len() as int) =~= cleaned);
    assert(lv == lines(text@));
    out
}

/// The titles of a plan: its cleaned lines that are not empty.
pub fn plan_decision_titles(text: &str) -> (r: Vec<String>)
    ensures
        r@.map_values(|s: String| s@) == plan_titles(text@),
{
    let titles = plan_title_chars(text);
    let mut out: Vec<String> = Vec::new();
    let mut i: usize = 0;
    while i < titles.len()
        invariant
            i <= titles.len(),
            out@.map_values(|s: String| s@) == views(titles@).take(i as int),
        decreases titles.len() - i,
    {
        let s = from_chars(&titles[i]);
        let ghost before = out@;
        out.push(s);
        assert(out@ == before.push(s));
        assert(before.push(s).map_values(|s: String| s@) =~= before.map_values(|s: String| s@).push(
            s@,
        ));
        assert(views(titles@).take(i + 1) =~= views(titles@).take(i as int).push(titles@[i as int]@));
        i = i + 1;
    }
    assert(views(titles@).take(titles.len() as int) =~= views(titles@));
    out
}

/// The pending decision for the title at `index` of a plan.
fn make_pending_decision(
    thread_id: &str,
    turn_id: &String,
    plan_id: &String,
    index: usize,
    title: &Vec<char>,
) -> (r: ThreadDecision)
    ensures
        r@ == pending_decision(thread_id@, turn_id@, plan_id@, index as nat, title@),
{
    let mut id_chars = to_chars(plan_id.as_str());
    id_chars.push(':');
    push_decimal(index, &mut id_chars);
    let id = from_chars(&id_chars);
    assert(id@ =~= plan_id@ + seq![':'] + decimal(index as nat));
    let r = ThreadDecision {
        id,
        thread_id: thread_id.to_string(),
        title: from_chars(title),
        description: String::new(),
        urgency: ThreadDecisionUrgency::Deferred,
        status: ThreadDecisionStatus::Pending,
        options: Vec::new(),
        recommendation: None,
        source_turn_id: Some(turn_id.clone()),
        resolved_at: None,
        resolution: None,
        selected_option_id: None,
    };
    assert(r@.options =~= Seq::<crate::protocol::DecisionOptionView>::empty());
    r
}

/// The decisions of all plan items of the turns: one pending, deferred
/// decision per plan title, with id `<plan id>:<title index>`, in order of
/// turns, items and lines.
pub fn derive_decisions(thread_id: &str, turns: &[Turn]) -> (r: Vec<ThreadDecision>)
    ensures
        decision_views(r@) == derived_decisions(thread_id@, turn_views(turns@)),
{
    let ghost tv = turn_views(turns@);
    let mut out: Vec<ThreadDecision> = Vec::new();
    let mut i: usize = 0;
    assert(tv.take(0) =~= Seq::<TurnView>::empty());
    assert(decision_views(out@) =~= Seq::<DecisionView>::empty());
    while i < turns.len()
        invariant
            i <= turns.len(),
            tv == turn_views(turns@),
            decision_views(out@) == derived_decisions(thread_id@, tv.take(i as int)),
        decreases turns.len() - i,
    {
        let turn = &turns[i];
        let ghost base = decision_views(out@);
        let ghost iv = item_views(turn.items@);
        let mut j: usize = 0;
        assert(iv.take(0) =~= Seq::<ItemView>::empty());
        assert(base + Seq::<DecisionView>::empty() =~= base);
        while j < turn.items.len()
            invariant
                j <= turn.items.len(),
                iv == item_views(turn.items@),
                decision_views(out@) == base + items_decisions(thread_id@, turn.id@, iv.take(j as int)),
            decreases turn.items.len() - j,
        {
            let ghost base2 = decision_views(out@);
            assert(iv.take(j + 1).drop_last() =~= iv.take(j as int));
            assert(iv.take(j + 1).last() == turn.items@[j as int]@);
            match &turn.items[j] {
                ThreadItem::Plan { id, text } => {
                    let titles = plan_title_chars(text.as_str());
                    let ghost pd = plan_decisions(thread_id@, turn.id@, id@, views(titles@));
                    let mut k: usize = 0;
                    assert(pd.take(0) =~= Seq::<DecisionView>::empty());
                    assert(base2 + Seq::<DecisionView>::empty() =~= base2);
                    while k < titles.len()
                        invariant
                            k <= titles.len(),
                            pd == plan_decisions(thread_id@, turn.id@, id@, views(titles@)),
                            decision_views(out@) == base2 + pd.take(k as int),
                        decreases titles.len() - k,
                    {
                        let d = make_pending_decision(thread_id, &turn.id, id, k, &titles[k]);
                        let ghost before = out@;
                        out.push(d);
                        assert(decision_views(out@) =~= decision_views(before).push(d@));
                        assert(pd.take(k + 1) =~= pd.take(k as int).push(pd[k as int]));
                        assert(decision_views(out@) =~= base2 + pd.take(k + 1));
                        k = k + 1;
                    }
                    assert(pd.take(titles.len() as int) =~= pd);
                },
                _ => {
                    assert(base2 + Seq::<DecisionView>::empty() =~= base2);
                },
            }
            assert(decision_views(out@) =~= base + items_decisions(
                thread_id@,
                turn.id@,
                iv.take(j + 1),
            ));
            j = j + 1;
        }
        assert(iv.take(turn.items.len() as int) =~= iv);
        assert(tv.take(i + 1).drop_last() =~= tv.take(i as int));
        assert(tv.take(i + 1).last() == turn@);
        i = i + 1;
    }
    assert(tv.take(turns.len() as int) =~= tv);
    out
}

/// The decisions that pass the optional status and urgency filters, in their order.
pub fn filter_decisions(
    decisions: &Vec<ThreadDecision>,
    status: Option<ThreadDecisionStatus>,
    urgency: Option<ThreadDecisionUrgency>,
) -> (r: Vec<ThreadDecision>)
    ensures
        decision_views(r@) == filtered_decisions(decision_views(decisions@), status, urgency),
{
    let ghost dv = decision_views(decisions@);
    let mut out: Vec<ThreadDecision> = Vec::new();
    let mut i: usize = 0;
    assert(dv.take(0) =~= Seq::<DecisionView>::empty());
    proof {
        reveal_with_fuel(Seq::filter, 1);
    }
    assert(decision_views(out@) =~= filtered_decisions(dv.take(0), status, urgency));
    while i < decisions.len()
        invariant
            i <= decisions.len(),
            dv == decision_views(decisions@),
            decision_views(out@) == filtered_decisions(dv.take(i as int), status, urgency),
        decreases decisions.len() - i,
    {
        let d = &decisions[i];
        let keep = match status {
            Some(s) => d.status == s,
            None => true,
        } && match urgency {
            Some(u) => d.urgency == u,
            None => true,
        };
        proof {
            assert(dv.take(i + 1) =~= dv.take(i as int).push(d@));
            dv.take(i as int).lemma_filter_push(
                d@,
                |x: DecisionView| decision_matches(x, status, urgency),
            );
        }
        if keep {
            let c = copy_decision(d);
            let ghost before = out@;
            out.push(c);
            assert(decision_views(out@) =~= decision_views(before).push(c@));
        }
        i = i + 1;
    }
    assert(dv.take(decisions.len() as int) =~= dv);
    out
}

/// A decision id names its plan and the index of its title: two ids are the
/// same only for the same plan and index.
pub proof fn law_decision_id_names_plan_and_index(p1: Seq<char>, i1: nat, p2: Seq<char>, i2: nat)
    requires
        decision_id(p1, i1) == decision_id(p2, i2),
    ensures
        p1 == p2,
        i1 == i2,
{
    let x = decision_id(p1, i1);
    let d1 = decimal(i1);
    let d2 = decimal(i2);
    lemma_decimal_digits(i1);
    lemma_decimal_digits(i2);
    assert(x.len() == p1.len() + 1 + d1.len());
    assert(decision_id(p2, i2).len() == p2.len() + 1 + d2.len());
    if d1.len() < d2.len() {
        let k = x.len() - d1.len() - 1;
        assert(x[k] == ':');
        assert(decision_id(p2, i2)[k] == d2[k - p2.len() - 1]);
        assert(in_class(CharClass::AsciiDigit, d2[k - p2.len() - 1]));
    } else if d2.len() < d1.len() {
        let k = x.len() - d2.len() - 1;
        assert(decision_id(p2, i2)[k] == ':');
        assert(x[k] == d1[k - p1.len() - 1]);
        assert(in_class(CharClass::AsciiDigit, d1[k - p1.len() - 1]));
    } else {
        assert(p1.len() == p2.len());
        assert(d1 =~= x.skip(p1.len() as int + 1));
        assert(d2 =~= decision_id(p2, i2).skip(p2.len() as int + 1));
        lemma_decimal_injective(i1, i2);
        assert(p1 =~= x.take(p1.len() as int));
        assert(p2 =~= decision_id(p2, i2).take(p2.len() as int));
    }
}

/// The decisions of one plan have pairwise different ids.
pub proof fn law_plan_decision_ids_distinct(
    thread_id: Seq<char>,
    turn_id: Seq<char>,
    plan_id: Seq<char>,
    titles: Seq<Seq<char>>,
    j: int,
    k: int,
)
    requires
        0 <= j < k < titles.len(),
    ensures
        plan_decisions(thread_id, turn_id, plan_id, titles)[j].id != plan_decisions(
            thread_id,
            turn_id,
            plan_id,
            titles,
        )[k].id,
{
    if decision_id(plan_id, j as nat) == decision_id(plan_id, k as nat) {
        law_decision_id_names_plan_and_index(plan_id, j as nat, plan_id, k as nat);
    }
}

/// The number of plan titles that one item holds: those of its plan, if it is one.
pub open spec fn item_title_count(item: ItemView) -> nat {
    match item {
        ItemView::Plan { text, .. } => plan_titles(text).len(),
        _ => 0,
    }
}

/// The number of plan titles that the items hold together.
pub open spec fn title_count(items: Seq<ItemView>) -> nat
    decreases items.len(),
{
    if items.len() == 0 {
        0
    } else {
        title_count(items.drop_last()) + item_title_count(items.last())
    }
}

proof fn lemma_title_count_concat(a: Seq<ItemView>, b: Seq<ItemView>)
    ensures
        title_count(a + b) == title_count(a) + title_count(b),
    decreases b.len(),
{
    if b.len() == 0 {
        assert(a + b =~= a);
    } else {
        lemma_title_count_concat(a, b.drop_last());
        assert((a + b).drop_last() =~= a + b.drop_last());
        assert((a + b).last() == b.last());
    }
}

proof fn lemma_items_decisions_len(thread_id: Seq<char>, turn_id: Seq<char>, items: Seq<ItemView>)
    ensures
        items_decisions(thread_id, turn_id, items).len() == title_count(items),
    decreases items.len(),
{
    if items.len() > 0 {
        lemma_items_decisions_len(thread_id, turn_id, items.drop_last());
    }
}

/// Every plan title of the history, in every turn whatever its status, gives
/// one decision: their number is the number of titles of all plan items.
pub proof fn law_one_decision_per_plan_title(thread_id: Seq<char>, turns: Seq<TurnView>)
    ensures
        derived_decisions(thread_id, turns).len() == title_count(history_items(turns)),
    decreases turns.len(),
{
    if turns.len() > 0 {
        law_one_decision_per_plan_title(thread_id, turns.drop_last());
        lemma_items_decisions_len(thread_id, turns.last().id, turns.last().items);
        lemma_title_count_concat(history_items(turns.drop_last()), turns.last().items);
    }
}

/// The decisions of a plan item are its titles, in order, each pending and
/// deferred under the id of the plan and the title's index, from the turn
/// that holds the plan, whatever that turn's status.
pub proof fn law_turn_plan_decisions(
    thread_id: Seq<char>,
    turns: Seq<TurnView>,
    plan_id: Seq<char>,
    text: Seq<char>,
)
    requires
        turns.len() > 0,
        turns.last().items.len() > 0,
        turns.last().items.last() == (ItemView::Plan { id: plan_id, text }),
    ensures
        derived_decisions(thread_id, turns) == derived_decisions(thread_id, turns.drop_last())
            + items_decisions(thread_id, turns.last().id, turns.last().items.drop_last())
            + plan_decisions(thread_id, turns.last().id, plan_id, plan_titles(text)),
{
    assert(derived_decisions(thread_id, turns) =~= derived_decisions(thread_id, turns.drop_last())
        + items_decisions(thread_id, turns.last().id, turns.last().items.drop_last())
        + plan_decisions(thread_id, turns.last().id, plan_id, plan_titles(text)));
}

/// Two histories with the same turn ids and items, turn by turn, give the same
/// decisions: a turn's status plays no part.
pub proof fn law_decisions_ignore_turn_status(
    thread_id: Seq<char>,
    t1: Seq<TurnView>,
    t2: Seq<TurnView>,
)
    requires
        t1.len() == t2.len(),
        forall|i: int| 0 <= i < t1.len() ==> #[trigger] t1[i].id == t2[i].id && t1[i].items == t2[i].items,
    ensures
        derived_decisions(thread_id, t1) == derived_decisions(thread_id, t2),
    decreases t1.len(),
{
    if t1.len() > 0 {
        assert forall|i: int| 0 <= i < t1.drop_last().len() implies #[trigger] t1.drop_last()[i].id
            == t2.drop_last()[i].id && t1.drop_last()[i].items == t2.drop_last()[i].items by {
            assert(t1.drop_last()[i] == t1[i]);
            assert(t2.drop_last()[i] == t2[i]);
        }
        law_decisions_ignore_turn_status(thread_id, t1.drop_last(), t2.drop_last());
        assert(t1.last().id == t2.last().id && t1.last().items == t2.last().items);
    }
}

} // verus!
