//! The outcome summary of a thread: its latest agent message with fenced code
//! blocks taken out and runs of blank lines compacted.
use vstd::prelude::*;
use crate::history::{history_items, item_views, turn_views, ItemView, ThreadItem, Turn, TurnView};
use crate::text::{
    is_blank, is_blank_chars, join, join_chars, lines, slice_chars, split_lines, starts_with,
    starts_with_chars, to_chars, trim, trim_chars, trim_start, trim_start_chars, views, from_chars,
};

verus! {

/// The text of an item that is an agent message with something besides white space.
pub open spec fn agent_text(item: ItemView) -> Option<Seq<char>> {
    match item {
        ItemView::AgentMessage { text, .. } => if is_blank(text) {
            None
        } else {
            Some(text)
        },
        _ => None,
    }
}

/// The last non-blank agent message among `items`.
pub open spec fn last_agent_text(items: Seq<ItemView>) -> Option<Seq<char>>
    decreases items.len(),
{
    if items.len() == 0 {
        None
    } else {
        match agent_text(items.last()) {
            Some(t) => Some(t),
            None => last_agent_text(items.drop_last()),
        }
    }
}

/// The last non-blank agent message of the last turn that has one.
pub open spec fn latest_agent_text(turns: Seq<TurnView>) -> Option<Seq<char>>
    decreases turns.len(),
{
    if turns.len() == 0 {
        None
    } else {
        match last_agent_text(turns.last().items) {
            Some(t) => Some(t),
            None => latest_agent_text(turns.drop_last()),
        }
    }
}

pub open spec fn fence_marker() -> Seq<char> {
    seq!['`', '`', '`']
}

/// A line that opens or closes a fenced code block.
pub open spec fn is_fence_line(line: Seq<char>) -> bool {
    starts_with(trim_start(line), fence_marker())
}

/// The lines that stand outside fenced code blocks, fence lines excluded,
/// given whether the first of `ls` stands inside a block.
pub open spec fn unfenced_lines(ls: Seq<Seq<char>>, in_fence: bool) -> Seq<Seq<char>>
    decreases ls.len(),
{
    if ls.len() == 0 {
        Seq::empty()
    } else if is_fence_line(ls[0]) {
        unfenced_lines(ls.drop_first(), !in_fence)
    } else if in_fence {
        unfenced_lines(ls.drop_first(), true)
    } else {
        seq![ls[0]] + unfenced_lines(ls.drop_first(), false)
    }
}

/// The lines with each blank line dropped that follows a kept blank line,
/// given whether the line kept last was blank.
pub open spec fn compact_blank_lines(ls: Seq<Seq<char>>, previous_blank: bool) -> Seq<Seq<char>>
    decreases ls.len(),
{
    if ls.len() == 0 {
        Seq::empty()
    } else if is_blank(ls[0]) && previous_blank {
        compact_blank_lines(ls.drop_first(), true)
    } else {
        seq![ls[0]] + compact_blank_lines(ls.drop_first(), is_blank(ls[0]))
    }
}

/// A message with fenced code blocks taken out, runs of blank lines reduced
/// to one, joined by `\n` and trimmed.
pub open spec fn stripped_message(message: Seq<char>) -> Seq<char> {
    trim(join(compact_blank_lines(unfenced_lines(lines(message), false), false), seq!['\n']))
}

/// The outcome summary of the turns: the stripped latest agent message,
/// unless that is blank.
pub open spec fn outcome_summary(turns: Seq<TurnView>) -> Option<Seq<char>> {
    match latest_agent_text(turns) {
        None => None,
        Some(m) => if is_blank(stripped_message(m)) {
            None
        } else {
            Some(stripped_message(m))
        },
    }
}

/// The agent message text of an item, if it is one with something besides white space.
fn item_agent_text(item: &ThreadItem) -> (r: Option<String>)
    ensures
        opt_text_eq(r, agent_text(item@)),
{
    match item {
        ThreadItem::AgentMessage { text, .. } => {
            let cs = to_chars(text.as_str());
            if is_blank_chars(&cs) {
                None
            } else {
                Some(text.clone())
            }
        },
        _ => None,
    }
}

pub open spec fn opt_text_eq(r: Option<String>, expected: Option<Seq<char>>) -> bool {
    match r {
        Some(s) => expected == Some(s@),
        None => expected is None,
    }
}

/// The latest agent message with something besides white space, searching
/// the turns and their items from the last backwards.
pub fn latest_agent_message(turns: &[Turn]) -> (r: Option<String>)
    ensures
        opt_text_eq(r, latest_agent_text(turn_views(turns@))),
{
    let ghost tv = turn_views(turns@);
    let mut i: usize = turns.len();
    assert(tv.take(turns.len() as int) =~= tv);
    while i > 0
        invariant
            i <= turns.len(),
            tv == turn_views(turns@),
            latest_agent_text(tv) == latest_agent_text(tv.take(i as int)),
        decreases i,
    {
        let turn = &turns[i - 1];
        let ghost iv = item_views(turn.items@);
        assert(tv.take(i as int).last() == turn@);
        assert(tv.take(i as int).drop_last() =~= tv.take(i - 1));
        let mut j: usize = turn.items.len();
        assert(iv.take(turn.items.len() as int) =~= iv);
        assert(latest_agent_text(tv) == (match last_agent_text(iv) {
            Some(t) => Some(t),
            None => latest_agent_text(tv.take(i - 1)),
        }));
        while j > 0
            invariant
                j <= turn.items.len(),
                tv == turn_views(turns@),
                iv == item_views(turn.items@),
                latest_agent_text(tv) == (match last_agent_text(iv) {
                    Some(t) => Some(t),
                    None => latest_agent_text(tv.take(i - 1)),
                }),
                last_agent_text(iv) == last_agent_text(iv.take(j as int)),
            decreases j,
        {
            assert(iv.take(j as int).last() == turn.items@[j - 1]@);
            assert(iv.take(j as int).drop_last() =~= iv.take(j - 1));
            let found = item_agent_text(&turn.items[j - 1]);
            if found.is_some() {
                return found;
            }
            j = j - 1;
        }
        assert(iv.take(0) =~= Seq::<ItemView>::empty());
        i = i - 1;
    }
    assert(tv.take(0) =~= Seq::<TurnView>::empty());
    None
}

/// Whether a line opens or closes a fenced code block.
fn is_fence_chars(line: &Vec<char>) -> (b: bool)
    ensures
        b == is_fence_line(line@),
{
    let t = trim_start_chars(line);
    let marker: Vec<char> = vec!['`', '`', '`'];
    assert(marker@ =~= fence_marker());
    starts_with_chars(&t, &marker)
}

/// The message with fenced code blocks taken out, runs of blank lines
/// reduced to one, and leading and trailing white space removed.
pub fn strip_fenced_code_blocks(message: &str) -> (r: String)
    ensures
        r@ == stripped_message(message@),
{
    let chars = to_chars(message);
    let all = split_lines(&chars);
    let ghost ls = views(all@);
    let mut visible: Vec<Vec<char>> = Vec::new();
    let mut in_fence = false;
    let mut i: usize = 0;
    assert(ls.skip(0) =~= ls);
    while i < all.len()
        invariant
            i <= all.len(),
            ls == views(all@),
            unfenced_lines(ls, false) == views(visible@) + unfenced_lines(ls.skip(i as int), in_fence),
        decreases all.len() - i,
    {
        assert(ls.skip(i as int).drop_first() =~= ls.skip(i + 1));
        assert(ls.skip(i as int)[0] == all@[i as int]@);
        let ghost before = views(visible@);
        if is_fence_chars(&all[i]) {
            in_fence = !in_fence;
        } else if !in_fence {
            let line = slice_chars(&all[i], 0, all[i].len());
            assert(line@ =~= all@[i as int]@);
            visible.push(line);
            assert(views(visible@) =~= before.push(line@));
            assert(views(visible@) + unfenced_lines(ls.skip(i + 1), false) =~= before + (seq![
                line@,
            ] + unfenced_lines(ls.skip(i + 1), false)));
        }
        i = i + 1;
    }
    assert(ls.skip(all.len() as int) =~= Seq::<Seq<char>>::empty());
    assert(views(visible@) + Seq::<Seq<char>>::empty() =~= views(visible@));
    let ghost vs = views(visible@);
    let mut compacted: Vec<Vec<char>> = Vec::new();
    let mut previous_blank = false;
    let mut k: usize = 0;
    assert(vs.skip(0) =~= vs);
    while k < visible.len()
        invariant
            k <= visible.len(),
            vs == views(visible@),
            compact_blank_lines(vs, false) == views(compacted@) + compact_blank_lines(
                vs.skip(k as int),
                previous_blank,
            ),
        decreases visible.len() - k,
    {
        assert(vs.skip(k as int).drop_first() =~= vs.skip(k + 1));
        assert(vs.skip(k as int)[0] == visible@[k as int]@);
        let blank = is_blank_chars(&visible[k]);
        if !(blank && previous_blank) {
            let ghost before = views(compacted@);
            let line = slice_chars(&visible[k], 0, visible[k].len());
            assert(line@ =~= visible@[k as int]@);
            compacted.push(line);
            assert(views(compacted@) =~= before.push(line@));
            assert(views(compacted@) + compact_blank_lines(vs.skip(k + 1), blank) =~= before + (
            seq![line@] + compact_blank_lines(vs.skip(k + 1), blank)));
        }
        previous_blank = blank || previous_blank && blank;
        k = k + 1;
    }
    assert(vs.skip(visible.len() as int) =~= Seq::<Seq<char>>::empty());
    assert(views(compacted@) + Seq::<Seq<char>>::empty() =~= views(compacted@));
    let newline: Vec<char> = vec!['\n'];
    assert(newline@ =~= seq!['\n']);
    let joined = join_chars(&compacted, &newline);
    let trimmed = trim_chars(&joined);
    from_chars(&trimmed)
}

/// The outcome summary of the turns: the latest agent message stripped of
/// fenced code blocks, or nothing when that leaves only white space.
pub fn latest_outcome_summary(turns: &[Turn]) -> (r: Option<String>)
    ensures
        opt_text_eq(r, outcome_summary(turn_views(turns@))),
{
    match latest_agent_message(turns) {
        None => None,
        Some(message) => {
            let stripped = strip_fenced_code_blocks(message.as_str());
            let cs = to_chars(stripped.as_str());
            if is_blank_chars(&cs) {
                None
            } else {
                Some(stripped)
            }
        },
    }
}

/// A stripped message never begins or ends with white space.
pub proof fn law_stripped_message_is_trimmed(message: Seq<char>)
    ensures
        trim(stripped_message(message)) == stripped_message(message),
{
    crate::text::lemma_trim_idempotent(
        join(compact_blank_lines(unfenced_lines(lines(message), false), false), seq!['\n']),
    );
}

/// An outcome summary, when there is one, has something besides white space
/// and neither begins nor ends with white space.
pub proof fn law_outcome_summary_is_trimmed_and_not_blank(turns: Seq<TurnView>)
    ensures
        outcome_summary(turns) matches Some(s) ==> !is_blank(s) && trim(s) == s && s.len() > 0,
{
    if let Some(m) = latest_agent_text(turns) {
        law_stripped_message_is_trimmed(m);
        let s = stripped_message(m);
        if s.len() == 0 {
            assert(trim(s) =~= s);
        }
    }
}

proof fn lemma_last_agent_text_concat(a: Seq<ItemView>, b: Seq<ItemView>)
    ensures
        last_agent_text(a + b) == match last_agent_text(b) {
            Some(t) => Some(t),
            None => last_agent_text(a),
        },
    decreases b.len(),
{
    if b.len() == 0 {
        assert(a + b =~= a);
    } else {
        lemma_last_agent_text_concat(a, b.drop_last());
        assert((a + b).drop_last() =~= a + b.drop_last());
        assert((a + b).last() == b.last());
    }
}

/// The latest agent message is the last non-blank agent message of the whole
/// history, read across turn boundaries, whatever the turns' statuses.
pub proof fn law_latest_agent_text_reads_whole_history(turns: Seq<TurnView>)
    ensures
        latest_agent_text(turns) == last_agent_text(history_items(turns)),
    decreases turns.len(),
{
    if turns.len() > 0 {
        law_latest_agent_text_reads_whole_history(turns.drop_last());
        lemma_last_agent_text_concat(history_items(turns.drop_last()), turns.last().items);
    }
}

/// When the last turn holds a non-blank agent message, the latest agent
/// message is the last such message of that turn, whether the turn completed,
/// was interrupted, failed or is still in progress.
pub proof fn law_last_turn_message_wins(turns: Seq<TurnView>, message: Seq<char>)
    requires
        turns.len() > 0,
        last_agent_text(turns.last().items) == Some(message),
    ensures
        latest_agent_text(turns) == Some(message),
        outcome_summary(turns) == (if is_blank(stripped_message(message)) {
            None
        } else {
            Some(stripped_message(message))
        }),
{
}

/// Two histories with the same items turn by turn have the same latest agent
/// message and the same outcome summary: turn ids and statuses play no part.
pub proof fn law_summary_ignores_turn_status(t1: Seq<TurnView>, t2: Seq<TurnView>)
    requires
        t1.len() == t2.len(),
        forall|i: int| 0 <= i < t1.len() ==> #[trigger] t1[i].items == t2[i].items,
    ensures
        latest_agent_text(t1) == latest_agent_text(t2),
        outcome_summary(t1) == outcome_summary(t2),
    decreases t1.len(),
{
    if t1.len() > 0 {
        assert forall|i: int| 0 <= i < t1.drop_last().len() implies #[trigger] t1.drop_last()[i].items
            == t2.drop_last()[i].items by {
            assert(t1.drop_last()[i] == t1[i]);
            assert(t2.drop_last()[i] == t2[i]);
        }
        law_summary_ignores_turn_status(t1.drop_last(), t2.drop_last());
        assert(t1.last().items == t2.last().items);
    }
}

} // verus!
