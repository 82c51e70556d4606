//! Decision ids are unique across a requirement whenever the plan items of
//! the thread's history have unique ids.
use vstd::prelude::*;
use crate::decisions::{
    decision_id, derived_decisions, item_decisions, items_decisions, law_decision_id_names_plan_and_index,
    plan_decisions, plan_titles,
};
use crate::history::{ItemView, TurnView};
use crate::protocol::DecisionView;

verus! {

/// The ids of the plan items among `items`, in order.
pub open spec fn item_plan_ids(items: Seq<ItemView>) -> Seq<Seq<char>>
    decreases items.len(),
{
    if items.len() == 0 {
        Seq::empty()
    } else {
        item_plan_ids(items.drop_last()) + match items.last() {
            ItemView::Plan { id, .. } => seq![id],
            _ => Seq::empty(),
        }
    }
}

/// The ids of the plan items of all turns, in order.
pub open spec fn plan_ids(turns: Seq<TurnView>) -> Seq<Seq<char>>
    decreases turns.len(),
{
    if turns.len() == 0 {
        Seq::empty()
    } else {
        plan_ids(turns.drop_last()) + item_plan_ids(turns.last().items)
    }
}

/// No two decisions share an id.
pub open spec fn distinct_ids(ds: Seq<DecisionView>) -> bool {
    forall|i: int, j: int| 0 <= i < j < ds.len() ==> #[trigger] ds[i].id != #[trigger] ds[j].id
}

/// Whether `id` is the id of some title of one of the plans `ps`.
pub open spec fn has_plan_origin(id: Seq<char>, ps: Seq<Seq<char>>) -> bool {
    exists|p: Seq<char>, k: nat| ps.contains(p) && #[trigger] decision_id(p, k) == id
}

/// Every decision id is that of some title of one of the plans `ps`.
pub open spec fn ids_from(ds: Seq<DecisionView>, ps: Seq<Seq<char>>) -> bool {
    forall|i: int| 0 <= i < ds.len() ==> has_plan_origin(#[trigger] ds[i].id, ps)
}

proof fn lemma_concat(a: Seq<DecisionView>, pa: Seq<Seq<char>>, b: Seq<DecisionView>, pb: Seq<Seq<char>>)
    requires
        distinct_ids(a),
        distinct_ids(b),
        ids_from(a, pa),
        ids_from(b, pb),
        (pa + pb).no_duplicates(),
    ensures
        distinct_ids(a + b),
        ids_from(a + b, pa + pb),
{
    let c = a + b;
    assert forall|i: int, j: int| 0 <= i < j < c.len() implies #[trigger] c[i].id != #[trigger] c[j].id by {
        if j < a.len() {
            assert(c[i] == a[i] && c[j] == a[j]);
        } else if i >= a.len() {
            assert(c[i] == b[i - a.len()] && c[j] == b[j - a.len()]);
        } else {
            assert(c[i] == a[i] && c[j] == b[j - a.len()]);
            if c[i].id == c[j].id {
                let (p1, k1) = choose|p: Seq<char>, k: nat| pa.contains(p) && #[trigger] decision_id(p, k) == a[i].id;
                let (p2, k2) = choose|p: Seq<char>, k: nat| pb.contains(p) && #[trigger] decision_id(p, k) == b[j - a.len()].id;
                law_decision_id_names_plan_and_index(p1, k1, p2, k2);
                let x = choose|x: int| 0 <= x < pa.len() && pa[x] == p1;
                let y = choose|y: int| 0 <= y < pb.len() && pb[y] == p2;
                assert((pa + pb)[x] == (pa + pb)[pa.len() + y]);
            }
        }
    }
    assert forall|i: int| 0 <= i < c.len() implies has_plan_origin(#[trigger] c[i].id, pa + pb) by {
        if i < a.len() {
            assert(c[i] == a[i]);
            let (p, k) = choose|p: Seq<char>, k: nat| pa.contains(p) && #[trigger] decision_id(p, k) == a[i].id;
            let x = choose|x: int| 0 <= x < pa.len() && pa[x] == p;
            assert((pa + pb)[x] == p);
            assert(decision_id(p, k) == c[i].id);
        } else {
            assert(c[i] == b[i - a.len()]);
            let (p, k) = choose|p: Seq<char>, k: nat| pb.contains(p) && #[trigger] decision_id(p, k) == b[i - a.len()].id;
            let y = choose|y: int| 0 <= y < pb.len() && pb[y] == p;
            assert((pa + pb)[pa.len() + y] == p);
            assert(decision_id(p, k) == c[i].id);
        }
    }
}

proof fn lemma_no_duplicates_prefix(a: Seq<Seq<char>>, b: Seq<Seq<char>>)
    requires
        (a + b).no_duplicates(),
    ensures
        a.no_duplicates(),
        b.no_duplicates(),
{
    assert forall|i: int, j: int| 0 <= i < a.len() && 0 <= j < a.len() && i != j implies a[i] != a[j] by {
        assert((a + b)[i] == a[i] && (a + b)[j] == a[j]);
    }
    assert forall|i: int, j: int| 0 <= i < b.len() && 0 <= j < b.len() && i != j implies b[i] != b[j] by {
        assert((a + b)[a.len() + i] == b[i] && (a + b)[a.len() + j] == b[j]);
    }
}

proof fn lemma_item(thread_id: Seq<char>, turn_id: Seq<char>, item: ItemView)
    ensures
        distinct_ids(item_decisions(thread_id, turn_id, item)),
        ids_from(
            item_decisions(thread_id, turn_id, item),
            match item {
                ItemView::Plan { id, .. } => seq![id],
                _ => Seq::empty(),
            },
        ),
{
    match item {
        ItemView::Plan { id, text } => {
            let ds = plan_decisions(thread_id, turn_id, id, plan_titles(text));
            assert forall|i: int, j: int| 0 <= i < j < ds.len() implies #[trigger] ds[i].id != #[trigger] ds[j].id by {
                if ds[i].id == ds[j].id {
                    law_decision_id_names_plan_and_index(id, i as nat, id, j as nat);
                }
            }
            assert forall|i: int| 0 <= i < ds.len() implies has_plan_origin(#[trigger] ds[i].id, seq![id]) by {
                assert(seq![id][0] == id);
                assert(decision_id(id, i as nat) == ds[i].id);
            }
        },
        _ => {},
    }
}

proof fn lemma_items(thread_id: Seq<char>, turn_id: Seq<char>, items: Seq<ItemView>)
    requires
        item_plan_ids(items).no_duplicates(),
    ensures
        distinct_ids(items_decisions(thread_id, turn_id, items)),
        ids_from(items_decisions(thread_id, turn_id, items), item_plan_ids(items)),
    decreases items.len(),
{
    if items.len() > 0 {
        let tail = match items.last() {
            ItemView::Plan { id, .. } => seq![id],
            _ => Seq::empty(),
        };
        lemma_no_duplicates_prefix(item_plan_ids(items.drop_last()), tail);
        lemma_items(thread_id, turn_id, items.drop_last());
        lemma_item(thread_id, turn_id, items.last());
        lemma_concat(
            items_decisions(thread_id, turn_id, items.drop_last()),
            item_plan_ids(items.drop_last()),
            item_decisions(thread_id, turn_id, items.last()),
            tail,
        );
    }
}

/// When the plan items of a thread's history have pairwise different ids,
/// so do the decisions derived from it: each can be named by its id.
pub proof fn law_derived_decision_ids_distinct(thread_id: Seq<char>, turns: Seq<TurnView>)
    requires
        plan_ids(turns).no_duplicates(),
    ensures
        distinct_ids(derived_decisions(thread_id, turns)),
        ids_from(derived_decisions(thread_id, turns), plan_ids(turns)),
    decreases turns.len(),
{
    if turns.len() > 0 {
        let last = turns.last();
        lemma_no_duplicates_prefix(plan_ids(turns.drop_last()), item_plan_ids(last.items));
        law_derived_decision_ids_distinct(thread_id, turns.drop_last());
        lemma_items(thread_id, last.id, last.items);
        lemma_concat(
            derived_decisions(thread_id, turns.drop_last()),
            plan_ids(turns.drop_last()),
            items_decisions(thread_id, last.id, last.items),
            item_plan_ids(last.items),
        );
    }
}

} // verus!
