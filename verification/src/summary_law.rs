//! Stripping a message twice gives what stripping it once gives, for
//! messages without carriage returns.
use vstd::prelude::*;
use crate::summary::{compact_blank_lines, fence_marker, is_fence_line, stripped_message, unfenced_lines};
use crate::text::{
    in_class, is_blank, is_white_space, join, leading_count, lemma_trim_idempotent, lines,
    lines_from, strip_cr, trailing_count, trim, trim_end, trim_start, CharClass,
};

verus! {

/// Every character of `s` is white space.
pub open spec fn all_white(s: Seq<char>) -> bool {
    forall|i: int| 0 <= i < s.len() ==> is_white_space(#[trigger] s[i])
}

/// No line holds a `\n` or a `\r`.
pub open spec fn clean_lines(v: Seq<Seq<char>>) -> bool {
    forall|i: int, j: int|
        0 <= i < v.len() && 0 <= j < v[i].len() ==> #[trigger] v[i][j] != '\n' && v[i][j] != '\r'
}

/// No line opens or closes a fenced code block.
pub open spec fn fence_free(v: Seq<Seq<char>>) -> bool {
    forall|i: int| 0 <= i < v.len() ==> !is_fence_line(#[trigger] v[i])
}

/// No blank line follows a blank line.
pub open spec fn no_blank_pairs(v: Seq<Seq<char>>) -> bool {
    forall|i: int| 0 < i < v.len() ==> !(is_blank(v[i - 1]) && is_blank(#[trigger] v[i]))
}

pub open spec fn newline() -> Seq<char> {
    seq!['\n']
}

proof fn lemma_leading_facts(s: Seq<char>, class: CharClass)
    ensures
        leading_count(s, class) <= s.len(),
        forall|i: int| 0 <= i < leading_count(s, class) ==> in_class(class, #[trigger] s[i]),
        leading_count(s, class) < s.len() ==> !in_class(class, s[leading_count(s, class) as int]),
    decreases s.len(),
{
    if s.len() > 0 && in_class(class, s[0]) {
        let t = s.drop_first();
        lemma_leading_facts(t, class);
        assert forall|i: int| 0 <= i < leading_count(s, class) implies in_class(class, #[trigger] s[i]) by {
            if i > 0 {
                assert(s[i] == t[i - 1]);
            }
        }
        if leading_count(s, class) < s.len() {
            assert(s[leading_count(s, class) as int] == t[leading_count(t, class) as int]);
        }
    }
}

proof fn lemma_trailing_facts(s: Seq<char>, class: CharClass)
    ensures
        trailing_count(s, class) <= s.len(),
        forall|i: int| s.len() - trailing_count(s, class) <= i < s.len() ==> in_class(class, #[trigger] s[i]),
        trailing_count(s, class) < s.len() ==> !in_class(
            class,
            s[s.len() - 1 - trailing_count(s, class)],
        ),
    decreases s.len(),
{
    if s.len() > 0 && in_class(class, s.last()) {
        let t = s.drop_last();
        lemma_trailing_facts(t, class);
        assert forall|i: int| s.len() - trailing_count(s, class) <= i < s.len() implies in_class(
            class,
            #[trigger] s[i],
        ) by {
            if i < s.len() - 1 {
                assert(s[i] == t[i]);
            }
        }
        if trailing_count(s, class) < s.len() {
            assert(s[s.len() - 1 - trailing_count(s, class)] == t[t.len() - 1 - trailing_count(t, class)]);
        }
    }
}

/// A text is blank exactly when all its characters are white space.
proof fn lemma_blank_iff_all_white(s: Seq<char>)
    ensures
        is_blank(s) <==> all_white(s),
{
    lemma_leading_facts(s, CharClass::WhiteSpace);
    let lc = leading_count(s, CharClass::WhiteSpace);
    let t = trim_start(s);
    lemma_trailing_facts(t, CharClass::WhiteSpace);
    if lc < s.len() {
        assert(t[0] == s[lc as int]);
        if trailing_count(t, CharClass::WhiteSpace) == t.len() {
            assert(in_class(CharClass::WhiteSpace, t[0]));
        }
        assert(!is_white_space(s[lc as int]));
        assert(!all_white(s));
    } else {
        assert(t.len() == 0);
        assert(trim(s).len() == 0);
    }
}

proof fn lemma_leading_concat_white(a: Seq<char>, b: Seq<char>)
    requires
        all_white(a),
    ensures
        leading_count(a + b, CharClass::WhiteSpace) == a.len() + leading_count(b, CharClass::WhiteSpace),
    decreases a.len(),
{
    if a.len() == 0 {
        assert(a + b =~= b);
    } else {
        assert((a + b)[0] == a[0]);
        assert((a + b).drop_first() =~= a.drop_first() + b);
        lemma_leading_concat_white(a.drop_first(), b);
    }
}

proof fn lemma_leading_concat_nonblank(a: Seq<char>, b: Seq<char>)
    requires
        !all_white(a),
    ensures
        leading_count(a + b, CharClass::WhiteSpace) == leading_count(a, CharClass::WhiteSpace),
    decreases a.len(),
{
    assert((a + b)[0] == a[0]);
    if is_white_space(a[0]) {
        assert((a + b).drop_first() =~= a.drop_first() + b);
        assert(!all_white(a.drop_first())) by {
            let k = choose|k: int| 0 <= k < a.len() && !is_white_space(a[k]);
            assert(a.drop_first()[k - 1] == a[k]);
        }
        lemma_leading_concat_nonblank(a.drop_first(), b);
    }
}

proof fn lemma_trailing_concat_white(a: Seq<char>, b: Seq<char>)
    requires
        all_white(b),
    ensures
        trailing_count(a + b, CharClass::WhiteSpace) == b.len() + trailing_count(a, CharClass::WhiteSpace),
    decreases b.len(),
{
    if b.len() == 0 {
        assert(a + b =~= a);
    } else {
        assert((a + b).last() == b.last());
        assert((a + b).drop_last() =~= a + b.drop_last());
        lemma_trailing_concat_white(a, b.drop_last());
    }
}

proof fn lemma_trailing_concat_nonblank(a: Seq<char>, b: Seq<char>)
    requires
        !all_white(b),
    ensures
        trailing_count(a + b, CharClass::WhiteSpace) == trailing_count(b, CharClass::WhiteSpace),
    decreases b.len(),
{
    assert((a + b).last() == b.last());
    if is_white_space(b.last()) {
        assert((a + b).drop_last() =~= a + b.drop_last());
        assert(!all_white(b.drop_last())) by {
            let k = choose|k: int| 0 <= k < b.len() && !is_white_space(b[k]);
            assert(b.drop_last()[k] == b[k]);
        }
        lemma_trailing_concat_nonblank(a, b.drop_last());
    }
}

/// A join of two or more lines starts with the first line.
proof fn lemma_join_front(v: Seq<Seq<char>>, sep: Seq<char>)
    requires
        v.len() >= 2,
    ensures
        join(v, sep) == v[0] + sep + join(v.drop_first(), sep),
    decreases v.len(),
{
    if v.len() == 2 {
        assert(v.drop_last().len() == 1);
        assert(v.drop_first().len() == 1);
        assert(join(v.drop_last(), sep) == v[0]);
        assert(join(v.drop_first(), sep) == v[1]);
        assert(join(v, sep) =~= v[0] + sep + join(v.drop_first(), sep));
    } else {
        lemma_join_front(v.drop_last(), sep);
        assert(v.drop_last().drop_first() =~= v.drop_first().drop_last());
        assert(v.drop_first().last() == v.last());
        assert(join(v, sep) =~= v[0] + sep + join(v.drop_first(), sep));
    }
}

proof fn lemma_lines_from_plain(cur: Seq<char>, w: Seq<char>, tail: Seq<char>)
    requires
        forall|j: int| 0 <= j < w.len() ==> #[trigger] w[j] != '\n',
    ensures
        lines_from(cur, w + tail) == lines_from(cur + w, tail),
    decreases w.len(),
{
    if w.len() == 0 {
        assert(w + tail =~= tail);
        assert(cur + w =~= cur);
    } else {
        assert((w + tail)[0] == w[0]);
        assert((w + tail).drop_first() =~= w.drop_first() + tail);
        assert(cur.push(w[0]) + w.drop_first() =~= cur + w);
        lemma_lines_from_plain(cur.push(w[0]), w.drop_first(), tail);
    }
}

/// The lines of joined clean lines are those lines, when the last is not empty.
proof fn lemma_lines_of_join(v: Seq<Seq<char>>)
    requires
        clean_lines(v),
        v.len() > 0 ==> v.last().len() > 0,
    ensures
        lines(join(v, newline())) == v,
    decreases v.len(),
{
    if v.len() == 0 {
        assert(lines(join(v, newline())) =~= v);
    } else if v.len() == 1 {
        assert(forall|j: int| 0 <= j < v[0].len() ==> #[trigger] v[0][j] != '\n');
        lemma_lines_from_plain(Seq::empty(), v[0], Seq::empty());
        assert(v[0] + Seq::<char>::empty() =~= v[0]);
        assert(Seq::<char>::empty() + v[0] =~= v[0]);
        assert(lines(join(v, newline())) =~= v);
    } else {
        let rest = v.drop_first();
        lemma_join_front(v, newline());
        assert(clean_lines(rest)) by {
            assert forall|i: int, j: int| 0 <= i < rest.len() && 0 <= j < rest[i].len() implies #[trigger] rest[i][j]
                != '\n' && rest[i][j] != '\r' by {
                assert(rest[i] == v[i + 1]);
            }
        }
        lemma_lines_of_join(rest);
        let x = newline() + join(rest, newline());
        assert(join(v, newline()) =~= v[0] + x);
        assert(forall|j: int| 0 <= j < v[0].len() ==> #[trigger] v[0][j] != '\n');
        lemma_lines_from_plain(Seq::empty(), v[0], x);
        assert(Seq::<char>::empty() + v[0] =~= v[0]);
        assert(x[0] == '\n');
        assert(x.drop_first() =~= join(rest, newline()));
        if v[0].len() > 0 {
            assert(v[0].last() != '\r');
        }
        assert(strip_cr(v[0]) == v[0]);
        assert(lines(join(v, newline())) =~= seq![v[0]] + rest);
        assert(seq![v[0]] + rest =~= v);
    }
}

/// The lines without the blank lines at their start, and the first line
/// left without its leading white space.
pub open spec fn trim_lines_start(v: Seq<Seq<char>>) -> Seq<Seq<char>>
    decreases v.len(),
{
    if v.len() == 0 {
        v
    } else if is_blank(v[0]) {
        trim_lines_start(v.drop_first())
    } else {
        v.update(0, trim_start(v[0]))
    }
}

/// The lines without the blank lines at their end, and the last line left
/// without its trailing white space.
pub open spec fn trim_lines_end(v: Seq<Seq<char>>) -> Seq<Seq<char>>
    decreases v.len(),
{
    if v.len() == 0 {
        v
    } else if is_blank(v.last()) {
        trim_lines_end(v.drop_last())
    } else {
        v.update(v.len() - 1, trim_end(v.last()))
    }
}

proof fn lemma_newline_white()
    ensures
        all_white(newline()),
{
    assert(newline()[0] as u32 == 0x0a);
}

proof fn lemma_trim_start_join(v: Seq<Seq<char>>)
    ensures
        trim_start(join(v, newline())) == join(trim_lines_start(v), newline()),
    decreases v.len(),
{
    lemma_newline_white();
    if v.len() == 0 {
        assert(trim_start(join(v, newline())) =~= Seq::<char>::empty());
    } else {
        lemma_blank_iff_all_white(v[0]);
        if is_blank(v[0]) {
            if v.len() == 1 {
                lemma_leading_concat_white(v[0], Seq::empty());
                assert(v[0] + Seq::<char>::empty() =~= v[0]);
                assert(trim_start(v[0]) =~= Seq::<char>::empty());
                assert(trim_lines_start(v.drop_first()) =~= Seq::<Seq<char>>::empty());
            } else {
                lemma_join_front(v, newline());
                let a = v[0] + newline();
                let j = join(v.drop_first(), newline());
                assert(all_white(a)) by {
                    assert forall|i: int| 0 <= i < a.len() implies is_white_space(#[trigger] a[i]) by {
                        if i < v[0].len() {
                            assert(a[i] == v[0][i]);
                        } else {
                            assert(a[i] == newline()[i - v[0].len()]);
                        }
                    }
                }
                assert(join(v, newline()) =~= a + j);
                lemma_leading_concat_white(a, j);
                lemma_leading_facts(j, CharClass::WhiteSpace);
                assert(trim_start(a + j) =~= trim_start(j));
                lemma_trim_start_join(v.drop_first());
            }
        } else {
            let u = v.update(0, trim_start(v[0]));
            if v.len() == 1 {
                assert(join(u, newline()) == u[0]);
            } else {
                lemma_join_front(v, newline());
                lemma_join_front(u, newline());
                let x = newline() + join(v.drop_first(), newline());
                assert(u.drop_first() =~= v.drop_first());
                assert(join(v, newline()) =~= v[0] + x);
                lemma_leading_concat_nonblank(v[0], x);
                lemma_leading_facts(v[0], CharClass::WhiteSpace);
                assert(trim_start(v[0] + x) =~= trim_start(v[0]) + x);
                assert(join(u, newline()) =~= trim_start(v[0]) + x);
            }
        }
    }
}

proof fn lemma_trim_end_join(v: Seq<Seq<char>>)
    ensures
        trim_end(join(v, newline())) == join(trim_lines_end(v), newline()),
    decreases v.len(),
{
    lemma_newline_white();
    if v.len() == 0 {
        assert(trim_end(join(v, newline())) =~= Seq::<char>::empty());
    } else {
        lemma_blank_iff_all_white(v.last());
        if is_blank(v.last()) {
            if v.len() == 1 {
                lemma_trailing_concat_white(Seq::empty(), v[0]);
                assert(Seq::<char>::empty() + v[0] =~= v[0]);
                assert(trim_end(v[0]) =~= Seq::<char>::empty());
                assert(trim_lines_end(v.drop_last()) =~= Seq::<Seq<char>>::empty());
            } else {
                let p = join(v.drop_last(), newline());
                let b = newline() + v.last();
                assert(all_white(b)) by {
                    assert forall|i: int| 0 <= i < b.len() implies is_white_space(#[trigger] b[i]) by {
                        if i < 1 {
                            assert(b[i] == newline()[i]);
                        } else {
                            assert(b[i] == v.last()[i - 1]);
                        }
                    }
                }
                assert(join(v, newline()) =~= p + b);
                lemma_trailing_concat_white(p, b);
                lemma_trailing_facts(p, CharClass::WhiteSpace);
                assert(trim_end(p + b) =~= trim_end(p));
                lemma_trim_end_join(v.drop_last());
            }
        } else {
            let u = v.update(v.len() - 1, trim_end(v.last()));
            if v.len() == 1 {
                assert(join(u, newline()) == u[0]);
            } else {
                let p = join(v.drop_last(), newline()) + newline();
                assert(u.drop_last() =~= v.drop_last());
                assert(join(v, newline()) =~= p + v.last());
                lemma_trailing_concat_nonblank(p, v.last());
                lemma_trailing_facts(v.last(), CharClass::WhiteSpace);
                assert(trim_end(p + v.last()) =~= p + trim_end(v.last()));
                assert(join(u, newline()) =~= p + trim_end(v.last()));
            }
        }
    }
}

/// Lines as stripping leaves them: clean, outside fences, without runs of blank lines.
pub open spec fn normal_lines(v: Seq<Seq<char>>) -> bool {
    clean_lines(v) && fence_free(v) && no_blank_pairs(v)
}

proof fn lemma_lines_from_clean(cur: Seq<char>, rest: Seq<char>)
    requires
        forall|j: int| 0 <= j < cur.len() ==> #[trigger] cur[j] != '\n' && cur[j] != '\r',
        forall|j: int| 0 <= j < rest.len() ==> #[trigger] rest[j] != '\r',
    ensures
        clean_lines(lines_from(cur, rest)),
    decreases rest.len(),
{
    let out = lines_from(cur, rest);
    if rest.len() == 0 {
        if cur.len() > 0 {
            assert forall|i: int, j: int| 0 <= i < out.len() && 0 <= j < out[i].len() implies #[trigger] out[i][j]
                != '\n' && out[i][j] != '\r' by {
                assert(out[i] == cur);
            }
        }
    } else {
        let tail = rest.drop_first();
        assert forall|j: int| 0 <= j < tail.len() implies #[trigger] tail[j] != '\r' by {
            assert(tail[j] == rest[j + 1]);
        }
        if rest[0] == '\n' {
            lemma_lines_from_clean(Seq::empty(), tail);
            let first = strip_cr(cur);
            let later = lines_from(Seq::empty(), tail);
            assert forall|i: int, j: int| 0 <= i < out.len() && 0 <= j < out[i].len() implies #[trigger] out[i][j]
                != '\n' && out[i][j] != '\r' by {
                if i == 0 {
                    assert(out[0] == first);
                    assert(first[j] == cur[j]);
                } else {
                    assert(out[i] == later[i - 1]);
                }
            }
        } else {
            let next = cur.push(rest[0]);
            assert forall|j: int| 0 <= j < next.len() implies #[trigger] next[j] != '\n' && next[j] != '\r' by {
                if j < cur.len() {
                    assert(next[j] == cur[j]);
                }
            }
            lemma_lines_from_clean(next, tail);
        }
    }
}

proof fn lemma_unfenced_normal(ls: Seq<Seq<char>>, in_fence: bool)
    requires
        clean_lines(ls),
    ensures
        clean_lines(unfenced_lines(ls, in_fence)),
        fence_free(unfenced_lines(ls, in_fence)),
    decreases ls.len(),
{
    if ls.len() > 0 {
        let rest = ls.drop_first();
        assert forall|i: int, j: int| 0 <= i < rest.len() && 0 <= j < rest[i].len() implies #[trigger] rest[i][j]
            != '\n' && rest[i][j] != '\r' by {
            assert(rest[i] == ls[i + 1]);
        }
        lemma_unfenced_normal(rest, !in_fence);
        lemma_unfenced_normal(rest, true);
        lemma_unfenced_normal(rest, false);
        if !is_fence_line(ls[0]) && !in_fence {
            let later = unfenced_lines(rest, false);
            let out = seq![ls[0]] + later;
            assert forall|i: int, j: int| 0 <= i < out.len() && 0 <= j < out[i].len() implies #[trigger] out[i][j]
                != '\n' && out[i][j] != '\r' by {
                if i > 0 {
                    assert(out[i] == later[i - 1]);
                }
            }
            assert forall|i: int| 0 <= i < out.len() implies !is_fence_line(#[trigger] out[i]) by {
                if i > 0 {
                    assert(out[i] == later[i - 1]);
                }
            }
        }
    }
}

proof fn lemma_compact_normal(ls: Seq<Seq<char>>, previous_blank: bool)
    requires
        clean_lines(ls),
        fence_free(ls),
    ensures
        normal_lines(compact_blank_lines(ls, previous_blank)),
        previous_blank && compact_blank_lines(ls, previous_blank).len() > 0 ==> !is_blank(
            compact_blank_lines(ls, previous_blank)[0],
        ),
    decreases ls.len(),
{
    if ls.len() > 0 {
        let rest = ls.drop_first();
        assert forall|i: int, j: int| 0 <= i < rest.len() && 0 <= j < rest[i].len() implies #[trigger] rest[i][j]
            != '\n' && rest[i][j] != '\r' by {
            assert(rest[i] == ls[i + 1]);
        }
        assert forall|i: int| 0 <= i < rest.len() implies !is_fence_line(#[trigger] rest[i]) by {
            assert(rest[i] == ls[i + 1]);
        }
        lemma_compact_normal(rest, true);
        lemma_compact_normal(rest, is_blank(ls[0]));
        if !(is_blank(ls[0]) && previous_blank) {
            let later = compact_blank_lines(rest, is_blank(ls[0]));
            let out = seq![ls[0]] + later;
            assert(out[0] == ls[0]);
            assert forall|i: int, j: int| 0 <= i < out.len() && 0 <= j < out[i].len() implies #[trigger] out[i][j]
                != '\n' && out[i][j] != '\r' by {
                if i > 0 {
                    assert(out[i] == later[i - 1]);
                }
            }
            assert forall|i: int| 0 <= i < out.len() implies !is_fence_line(#[trigger] out[i]) by {
                if i > 0 {
                    assert(out[i] == later[i - 1]);
                }
            }
            assert forall|i: int| 0 < i < out.len() implies !(is_blank(out[i - 1]) && is_blank(
                #[trigger] out[i],
            )) by {
                assert(out[i] == later[i - 1]);
                if i > 1 {
                    assert(out[i - 1] == later[i - 2]);
                }
            }
        }
    }
}

proof fn lemma_trim_start_line(x: Seq<char>)
    ensures
        trim_start(x).len() == x.len() - leading_count(x, CharClass::WhiteSpace),
        forall|j: int|
            0 <= j < trim_start(x).len() ==> #[trigger] trim_start(x)[j] == x[j + leading_count(
                x,
                CharClass::WhiteSpace,
            )],
        is_fence_line(trim_start(x)) == is_fence_line(x),
        is_blank(trim_start(x)) == is_blank(x),
{
    lemma_leading_facts(x, CharClass::WhiteSpace);
    let lc = leading_count(x, CharClass::WhiteSpace);
    let t = trim_start(x);
    if lc < x.len() {
        assert(t[0] == x[lc as int]);
    }
    assert(leading_count(t, CharClass::WhiteSpace) == 0);
    assert(trim_start(t) =~= t);
    lemma_blank_iff_all_white(x);
    lemma_blank_iff_all_white(t);
    if all_white(t) {
        assert forall|i: int| 0 <= i < x.len() implies is_white_space(#[trigger] x[i]) by {
            if i >= lc {
                assert(x[i] == t[i - lc]);
            }
        }
    }
    if all_white(x) {
        assert forall|i: int| 0 <= i < t.len() implies is_white_space(#[trigger] t[i]) by {
            assert(t[i] == x[i + lc]);
        }
    }
}

proof fn lemma_trim_end_line(x: Seq<char>)
    requires
        !is_blank(x),
    ensures
        trim_end(x).len() <= x.len(),
        forall|j: int| 0 <= j < trim_end(x).len() ==> #[trigger] trim_end(x)[j] == x[j],
        is_fence_line(trim_end(x)) ==> is_fence_line(x),
        !is_blank(trim_end(x)),
{
    lemma_leading_facts(x, CharClass::WhiteSpace);
    lemma_trailing_facts(x, CharClass::WhiteSpace);
    lemma_blank_iff_all_white(x);
    let lc = leading_count(x, CharClass::WhiteSpace);
    let n = x.len() - trailing_count(x, CharClass::WhiteSpace);
    let e = trim_end(x);
    // The first character that is not white space lies within `trim_end(x)`.
    assert(lc < x.len()) by {
        if lc >= x.len() {
            assert forall|i: int| 0 <= i < x.len() implies is_white_space(#[trigger] x[i]) by {}
        }
    }
    assert(!is_white_space(x[lc as int]));
    assert(lc < n);
    lemma_leading_facts(e, CharClass::WhiteSpace);
    let le = leading_count(e, CharClass::WhiteSpace);
    if le < lc {
        assert(e[le as int] == x[le as int]);
    }
    if le > lc {
        assert(e[lc as int] == x[lc as int]);
    }
    assert(le == lc);
    lemma_blank_iff_all_white(e);
    assert(e[lc as int] == x[lc as int]);
    if is_fence_line(e) {
        let te = trim_start(e);
        let tx = trim_start(x);
        assert(te =~= x.subrange(lc as int, n));
        assert(te.take(3) =~= fence_marker());
        assert(tx.take(3) =~= te.take(3));
    }
}

proof fn lemma_normal_drop_first(v: Seq<Seq<char>>)
    requires
        normal_lines(v),
        v.len() > 0,
    ensures
        normal_lines(v.drop_first()),
{
    let r = v.drop_first();
    assert forall|i: int, j: int| 0 <= i < r.len() && 0 <= j < r[i].len() implies #[trigger] r[i][j]
        != '\n' && r[i][j] != '\r' by {
        assert(r[i] == v[i + 1]);
    }
    assert forall|i: int| 0 <= i < r.len() implies !is_fence_line(#[trigger] r[i]) by {
        assert(r[i] == v[i + 1]);
    }
    assert forall|i: int| 0 < i < r.len() implies !(is_blank(r[i - 1]) && is_blank(#[trigger] r[i])) by {
        assert(r[i] == v[i + 1]);
        assert(r[i - 1] == v[i]);
    }
}

proof fn lemma_normal_drop_last(v: Seq<Seq<char>>)
    requires
        normal_lines(v),
        v.len() > 0,
    ensures
        normal_lines(v.drop_last()),
{
    let r = v.drop_last();
    assert forall|i: int, j: int| 0 <= i < r.len() && 0 <= j < r[i].len() implies #[trigger] r[i][j]
        != '\n' && r[i][j] != '\r' by {
        assert(r[i] == v[i]);
    }
    assert forall|i: int| 0 <= i < r.len() implies !is_fence_line(#[trigger] r[i]) by {
        assert(r[i] == v[i]);
    }
    assert forall|i: int| 0 < i < r.len() implies !(is_blank(r[i - 1]) && is_blank(#[trigger] r[i])) by {
        assert(r[i] == v[i]);
        assert(r[i - 1] == v[i - 1]);
    }
}

proof fn lemma_trim_lines_start_normal(v: Seq<Seq<char>>)
    requires
        normal_lines(v),
    ensures
        normal_lines(trim_lines_start(v)),
        trim_lines_start(v).len() > 0 ==> !is_blank(trim_lines_start(v)[0]),
    decreases v.len(),
{
    if v.len() > 0 {
        if is_blank(v[0]) {
            lemma_normal_drop_first(v);
            lemma_trim_lines_start_normal(v.drop_first());
        } else {
            let x = v[0];
            let u = v.update(0, trim_start(x));
            lemma_trim_start_line(x);
            let lc = leading_count(x, CharClass::WhiteSpace);
            assert forall|i: int, j: int| 0 <= i < u.len() && 0 <= j < u[i].len() implies #[trigger] u[i][j]
                != '\n' && u[i][j] != '\r' by {
                if i == 0 {
                    assert(u[0][j] == x[j + lc]);
                    assert(v[0][j + lc] == x[j + lc]);
                } else {
                    assert(u[i] == v[i]);
                }
            }
            assert forall|i: int| 0 <= i < u.len() implies !is_fence_line(#[trigger] u[i]) by {
                if i > 0 {
                    assert(u[i] == v[i]);
                }
            }
            assert forall|i: int| 0 < i < u.len() implies !(is_blank(u[i - 1]) && is_blank(#[trigger] u[i])) by {
                assert(u[i] == v[i]);
                if i > 1 {
                    assert(u[i - 1] == v[i - 1]);
                }
            }
        }
    }
}

proof fn lemma_trim_lines_end_normal(v: Seq<Seq<char>>)
    requires
        normal_lines(v),
        v.len() > 0 ==> !is_blank(v[0]),
    ensures
        normal_lines(trim_lines_end(v)),
        trim_lines_end(v).len() > 0 ==> !is_blank(trim_lines_end(v)[0]) && !is_blank(
            trim_lines_end(v).last(),
        ),
    decreases v.len(),
{
    if v.len() > 0 {
        if is_blank(v.last()) {
            lemma_normal_drop_last(v);
            lemma_trim_lines_end_normal(v.drop_last());
        } else {
            let n = v.len() - 1;
            let x = v.last();
            let u = v.update(n, trim_end(x));
            lemma_trim_end_line(x);
            assert forall|i: int, j: int| 0 <= i < u.len() && 0 <= j < u[i].len() implies #[trigger] u[i][j]
                != '\n' && u[i][j] != '\r' by {
                if i == n {
                    assert(u[n][j] == x[j]);
                    assert(v[n][j] == x[j]);
                } else {
                    assert(u[i] == v[i]);
                }
            }
            assert forall|i: int| 0 <= i < u.len() implies !is_fence_line(#[trigger] u[i]) by {
                if i < n {
                    assert(u[i] == v[i]);
                } else {
                    assert(!is_fence_line(v[n]));
                }
            }
            assert forall|i: int| 0 < i < u.len() implies !(is_blank(u[i - 1]) && is_blank(#[trigger] u[i])) by {
                if i < n {
                    assert(u[i] == v[i]);
                }
                assert(u[i - 1] == v[i - 1]);
            }
        }
    }
}

proof fn lemma_unfenced_identity(v: Seq<Seq<char>>)
    requires
        fence_free(v),
    ensures
        unfenced_lines(v, false) == v,
    decreases v.len(),
{
    if v.len() > 0 {
        let rest = v.drop_first();
        assert forall|i: int| 0 <= i < rest.len() implies !is_fence_line(#[trigger] rest[i]) by {
            assert(rest[i] == v[i + 1]);
        }
        lemma_unfenced_identity(rest);
        assert(seq![v[0]] + rest =~= v);
    }
}

proof fn lemma_compact_identity(v: Seq<Seq<char>>, previous_blank: bool)
    requires
        no_blank_pairs(v),
        previous_blank && v.len() > 0 ==> !is_blank(v[0]),
    ensures
        compact_blank_lines(v, previous_blank) == v,
    decreases v.len(),
{
    if v.len() > 0 {
        let rest = v.drop_first();
        assert forall|i: int| 0 < i < rest.len() implies !(is_blank(rest[i - 1]) && is_blank(
            #[trigger] rest[i],
        )) by {
            assert(rest[i] == v[i + 1]);
            assert(rest[i - 1] == v[i]);
        }
        if rest.len() > 0 {
            assert(rest[0] == v[1]);
        }
        lemma_compact_identity(rest, is_blank(v[0]));
        assert(seq![v[0]] + rest =~= v);
    }
}

/// Stripping fenced code blocks from a message without carriage returns,
/// and then from the result again, gives the result of the first pass: what
/// stripping leaves holds no fence line, no run of blank lines and no white
/// space at either end.
pub proof fn law_strip_fenced_idempotent(message: Seq<char>)
    requires
        !message.contains('\r'),
    ensures
        stripped_message(stripped_message(message)) == stripped_message(message),
{
    let nl = newline();
    assert forall|j: int| 0 <= j < message.len() implies #[trigger] message[j] != '\r' by {
        if message[j] == '\r' {
            assert(message.contains('\r'));
        }
    }
    let ls = lines(message);
    lemma_lines_from_clean(Seq::empty(), message);
    lemma_unfenced_normal(ls, false);
    let u = unfenced_lines(ls, false);
    lemma_compact_normal(u, false);
    let v = compact_blank_lines(u, false);
    lemma_trim_start_join(v);
    lemma_trim_end_join(trim_lines_start(v));
    lemma_trim_lines_start_normal(v);
    lemma_trim_lines_end_normal(trim_lines_start(v));
    let w = trim_lines_end(trim_lines_start(v));
    let r = stripped_message(message);
    assert(r == join(w, nl));
    if w.len() > 0 && w.last().len() == 0 {
        assert(trim(w.last()) =~= w.last());
    }
    lemma_lines_of_join(w);
    lemma_unfenced_identity(w);
    lemma_compact_identity(w, false);
    lemma_trim_idempotent(join(v, nl));
}

} // verus!
