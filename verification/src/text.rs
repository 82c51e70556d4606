//! Character-level text operations: whitespace classes, trimming, line
//! splitting, joining and decimal rendering, each stated over `Seq<char>`.
use vstd::prelude::*;

verus! {

/// The characters that Unicode gives the `White_Space` property; this is the
/// class that `char::is_whitespace` tests.
pub open spec fn is_white_space(c: char) -> bool {
    let x = c as u32;
    ||| 0x09 <= x && x <= 0x0d
    ||| x == 0x20
    ||| x == 0x85
    ||| x == 0xa0
    ||| x == 0x1680
    ||| 0x2000 <= x && x <= 0x200a
    ||| x == 0x2028
    ||| x == 0x2029
    ||| x == 0x202f
    ||| x == 0x205f
    ||| x == 0x3000
}

/// A class of characters that a prefix or suffix can be stripped of.
#[derive(Clone, Copy, Debug, PartialEq, Eq, Structural)]
pub enum CharClass {
    WhiteSpace,
    /// `-`, `*` and `+`, the markers of a bullet list.
    Bullet,
    /// `0` to `9`.
    AsciiDigit,
    /// `.` and `)`, the marks that follow a list number.
    NumberMark,
}

pub open spec fn in_class(class: CharClass, c: char) -> bool {
    match class {
        CharClass::WhiteSpace => is_white_space(c),
        CharClass::Bullet => c == '-' || c == '*' || c == '+',
        CharClass::AsciiDigit => '0' <= c && c <= '9',
        CharClass::NumberMark => c == '.' || c == ')',
    }
}

pub fn char_in_class(class: CharClass, c: char) -> (b: bool)
    ensures
        b == in_class(class, c),
{
    match class {
        CharClass::WhiteSpace => {
            let x = c as u32;
            (0x09 <= x && x <= 0x0d) || x == 0x20 || x == 0x85 || x == 0xa0 || x == 0x1680
                || (0x2000 <= x && x <= 0x200a) || x == 0x2028 || x == 0x2029 || x == 0x202f
                || x == 0x205f || x == 0x3000
        },
        CharClass::Bullet => c == '-' || c == '*' || c == '+',
        CharClass::AsciiDigit => '0' <= c && c <= '9',
        CharClass::NumberMark => c == '.' || c == ')',
    }
}

/// Number of leading characters of `s` that are in `class`.
pub open spec fn leading_count(s: Seq<char>, class: CharClass) -> nat
    decreases s.len(),
{
    if s.len() > 0 && in_class(class, s[0]) {
        1 + leading_count(s.drop_first(), class)
    } else {
        0
    }
}

/// Number of trailing characters of `s` that are in `class`.
pub open spec fn trailing_count(s: Seq<char>, class: CharClass) -> nat
    decreases s.len(),
{
    if s.len() > 0 && in_class(class, s.last()) {
        1 + trailing_count(s.drop_last(), class)
    } else {
        0
    }
}

/// `s` without its longest prefix of characters in `class`.
pub open spec fn strip_start(s: Seq<char>, class: CharClass) -> Seq<char> {
    s.skip(leading_count(s, class) as int)
}

/// `s` without its longest suffix of characters in `class`.
pub open spec fn strip_end(s: Seq<char>, class: CharClass) -> Seq<char> {
    s.take(s.len() - trailing_count(s, class))
}

pub open spec fn trim_start(s: Seq<char>) -> Seq<char> {
    strip_start(s, CharClass::WhiteSpace)
}

pub open spec fn trim_end(s: Seq<char>) -> Seq<char> {
    strip_end(s, CharClass::WhiteSpace)
}

/// `s` without leading and trailing white space.
pub open spec fn trim(s: Seq<char>) -> Seq<char> {
    trim_end(trim_start(s))
}

/// A text is blank when it holds nothing but white space.
pub open spec fn is_blank(s: Seq<char>) -> bool {
    trim(s).len() == 0
}

pub open spec fn starts_with(s: Seq<char>, prefix: Seq<char>) -> bool {
    prefix.len() <= s.len() && s.take(prefix.len() as int) == prefix
}

/// A line without the carriage return that ends it, if any.
pub open spec fn strip_cr(line: Seq<char>) -> Seq<char> {
    if line.len() > 0 && line.last() == '\r' {
        line.drop_last()
    } else {
        line
    }
}

/// The lines of `rest`, given that `current` holds the characters of the
/// line read so far. A line ends at `\n`; a `\r` just before that `\n` is
/// dropped; a final line without `\n` is kept as it stands, and an empty text
/// after the last `\n` is no line.
pub open spec fn lines_from(current: Seq<char>, rest: Seq<char>) -> Seq<Seq<char>>
    decreases rest.len(),
{
    if rest.len() == 0 {
        if current.len() == 0 {
            Seq::empty()
        } else {
            seq![current]
        }
    } else if rest[0] == '\n' {
        seq![strip_cr(current)] + lines_from(Seq::empty(), rest.drop_first())
    } else {
        lines_from(current.push(rest[0]), rest.drop_first())
    }
}

/// The lines of a text, as `str::lines` yields them.
pub open spec fn lines(s: Seq<char>) -> Seq<Seq<char>> {
    lines_from(Seq::empty(), s)
}

/// The parts joined with `sep` between each two of them.
pub open spec fn join(parts: Seq<Seq<char>>, sep: Seq<char>) -> Seq<char>
    decreases parts.len(),
{
    if parts.len() == 0 {
        Seq::empty()
    } else if parts.len() == 1 {
        parts[0]
    } else {
        join(parts.drop_last(), sep) + sep + parts.last()
    }
}

pub open spec fn digit_char(d: nat) -> char {
    ((d + 48) as u8) as char
}

/// The decimal digits of `n`, most significant first.
pub open spec fn decimal(n: nat) -> Seq<char>
    decreases n,
{
    if n < 10 {
        seq![digit_char(n)]
    } else {
        decimal(n / 10).push(digit_char(n % 10))
    }
}

/// Trusted: `String::push` appends one character.
#[verifier::external_body]
fn string_push(s: &mut String, c: char)
    ensures
        final(s)@ == old(s)@.push(c),
{
    s.push(c);
}

/// The characters of a text.
pub fn to_chars(s: &str) -> (v: Vec<char>)
    ensures
        v@ == s@,
{
    broadcast use vstd::string::group_string_axioms;

    let mut v: Vec<char> = Vec::new();
    for c in it: s.chars()
        invariant
            it.seq() == s@,
            v@ == it.seq().take(it.index() as int),
    {
        v.push(c);
    }
    assert(v@ == s@.take(s@.len() as int));
    v
}

/// The view of each text in a sequence of character vectors.
pub open spec fn views(v: Seq<Vec<char>>) -> Seq<Seq<char>> {
    v.map_values(|x: Vec<char>| x@)
}

/// The text made of the given characters.
pub fn from_chars(v: &Vec<char>) -> (s: String)
    ensures
        s@ == v@,
{
    let mut s = String::new();
    let mut i: usize = 0;
    while i < v.len()
        invariant
            i <= v.len(),
            s@ == v@.take(i as int),
        decreases v.len() - i,
    {
        string_push(&mut s, v[i]);
        assert(v@.take(i + 1) =~= v@.take(i as int).push(v@[i as int]));
        i = i + 1;
    }
    assert(v@.take(v.len() as int) =~= v@);
    s
}

/// Appends the characters of `more` to `acc`.
pub fn append_chars(acc: &mut Vec<char>, more: &Vec<char>)
    ensures
        final(acc)@ == old(acc)@ + more@,
{
    let ghost start = acc@;
    let mut i: usize = 0;
    while i < more.len()
        invariant
            i <= more.len(),
            acc@ == start + more@.take(i as int),
        decreases more.len() - i,
    {
        acc.push(more[i]);
        assert(more@.take(i + 1) =~= more@.take(i as int).push(more@[i as int]));
        i = i + 1;
    }
    assert(more@.take(more.len() as int) =~= more@);
}

/// The characters of `v` from index `from` up to index `to`.
pub fn slice_chars(v: &Vec<char>, from: usize, to: usize) -> (r: Vec<char>)
    requires
        from <= to <= v.len(),
    ensures
        r@ == v@.subrange(from as int, to as int),
{
    let mut r: Vec<char> = Vec::new();
    let mut i: usize = from;
    while i < to
        invariant
            from <= i <= to <= v.len(),
            r@ == v@.subrange(from as int, i as int),
        decreases to - i,
    {
        r.push(v[i]);
        assert(v@.subrange(from as int, i + 1) =~= v@.subrange(from as int, i as int).push(v@[i as int]));
        i = i + 1;
    }
    r
}

pub proof fn lemma_leading_count_step(s: Seq<char>, class: CharClass, i: int)
    requires
        0 <= i < s.len(),
        in_class(class, s[i]),
    ensures
        leading_count(s.skip(i), class) == 1 + leading_count(s.skip(i + 1), class),
{
    assert(s.skip(i).drop_first() =~= s.skip(i + 1));
}

/// Number of leading characters of `v` in `class`.
pub fn leading_len(v: &Vec<char>, class: CharClass) -> (n: usize)
    ensures
        n == leading_count(v@, class),
{
    let mut i: usize = 0;
    assert(v@.skip(0) =~= v@);
    while i < v.len() && char_in_class(class, v[i])
        invariant
            i <= v.len(),
            leading_count(v@, class) == i + leading_count(v@.skip(i as int), class),
        decreases v.len() - i,
    {
        proof {
            lemma_leading_count_step(v@, class, i as int);
        }
        i = i + 1;
    }
    i
}

pub proof fn lemma_trailing_count_step(s: Seq<char>, class: CharClass, j: int)
    requires
        0 < j <= s.len(),
        in_class(class, s[j - 1]),
    ensures
        trailing_count(s.take(j), class) == 1 + trailing_count(s.take(j - 1), class),
{
    assert(s.take(j).drop_last() =~= s.take(j - 1));
}

/// Number of trailing characters of `v` in `class`.
pub fn trailing_len(v: &Vec<char>, class: CharClass) -> (n: usize)
    ensures
        n == trailing_count(v@, class),
        n <= v.len(),
{
    let mut j: usize = v.len();
    assert(v@.take(v.len() as int) =~= v@);
    while j > 0 && char_in_class(class, v[j - 1])
        invariant
            j <= v.len(),
            trailing_count(v@, class) == (v.len() - j) + trailing_count(v@.take(j as int), class),
        decreases j,
    {
        proof {
            lemma_trailing_count_step(v@, class, j as int);
        }
        j = j - 1;
    }
    v.len() - j
}

pub proof fn lemma_trailing_count_bound(s: Seq<char>, class: CharClass)
    ensures
        trailing_count(s, class) <= s.len(),
    decreases s.len(),
{
    if s.len() > 0 && in_class(class, s.last()) {
        lemma_trailing_count_bound(s.drop_last(), class);
    }
}

pub proof fn lemma_leading_count_bound(s: Seq<char>, class: CharClass)
    ensures
        leading_count(s, class) <= s.len(),
    decreases s.len(),
{
    if s.len() > 0 && in_class(class, s[0]) {
        lemma_leading_count_bound(s.drop_first(), class);
    }
}

/// `v` without its longest prefix of characters in `class`.
pub fn strip_start_chars(v: &Vec<char>, class: CharClass) -> (r: Vec<char>)
    ensures
        r@ == strip_start(v@, class),
{
    proof {
        lemma_leading_count_bound(v@, class);
    }
    let n = leading_len(v, class);
    let r = slice_chars(v, n, v.len());
    assert(r@ =~= v@.skip(n as int));
    r
}

/// `v` without its longest suffix of characters in `class`.
pub fn strip_end_chars(v: &Vec<char>, class: CharClass) -> (r: Vec<char>)
    ensures
        r@ == strip_end(v@, class),
{
    let n = trailing_len(v, class);
    let r = slice_chars(v, 0, v.len() - n);
    assert(r@ =~= v@.take(v.len() - n));
    r
}

/// `v` without leading white space.
pub fn trim_start_chars(v: &Vec<char>) -> (r: Vec<char>)
    ensures
        r@ == trim_start(v@),
{
    strip_start_chars(v, CharClass::WhiteSpace)
}

/// `v` without leading and trailing white space.
pub fn trim_chars(v: &Vec<char>) -> (r: Vec<char>)
    ensures
        r@ == trim(v@),
{
    let a = strip_start_chars(v, CharClass::WhiteSpace);
    strip_end_chars(&a, CharClass::WhiteSpace)
}

/// Whether `v` holds nothing but white space.
pub fn is_blank_chars(v: &Vec<char>) -> (b: bool)
    ensures
        b == is_blank(v@),
{
    let t = trim_chars(v);
    t.len() == 0
}

/// Whether `v` begins with `prefix`.
pub fn starts_with_chars(v: &Vec<char>, prefix: &Vec<char>) -> (b: bool)
    ensures
        b == starts_with(v@, prefix@),
{
    if prefix.len() > v.len() {
        return false;
    }
    let mut i: usize = 0;
    while i < prefix.len()
        invariant
            prefix.len() <= v.len(),
            i <= prefix.len(),
            forall|k: int| 0 <= k < i ==> v@[k] == prefix@[k],
        decreases prefix.len() - i,
    {
        if v[i] != prefix[i] {
            assert(v@.take(prefix.len() as int)[i as int] != prefix@[i as int]);
            return false;
        }
        i = i + 1;
    }
    assert(v@.take(prefix.len() as int) =~= prefix@);
    true
}

/// The line ending at a `\n`, without a `\r` just before that `\n`.
fn strip_cr_chars(line: Vec<char>) -> (r: Vec<char>)
    ensures
        r@ == strip_cr(line@),
{
    let mut line = line;
    if line.len() > 0 && line[line.len() - 1] == '\r' {
        line.pop();
    }
    line
}

/// The lines of a text, as `str::lines` yields them.
pub fn split_lines(v: &Vec<char>) -> (r: Vec<Vec<char>>)
    ensures
        views(r@) == lines(v@),
{
    let mut out: Vec<Vec<char>> = Vec::new();
    let mut cur: Vec<char> = Vec::new();
    let mut i: usize = 0;
    assert(v@.skip(0) =~= v@);
    while i < v.len()
        invariant
            i <= v.len(),
            lines(v@) == views(out@) + lines_from(cur@, v@.skip(i as int)),
        decreases v.len() - i,
    {
        let ghost old_out = views(out@);
        let ghost old_cur = cur@;
        assert(v@.skip(i as int).drop_first() =~= v@.skip(i + 1));
        assert(v@.skip(i as int)[0] == v@[i as int]);
        if v[i] == '\n' {
            let line = strip_cr_chars(cur);
            out.push(line);
            cur = Vec::new();
            assert(views(out@) =~= old_out.push(strip_cr(old_cur)));
            assert(lines_from(old_cur, v@.skip(i as int)) == seq![strip_cr(old_cur)] + lines_from(
                Seq::empty(),
                v@.skip(i + 1),
            ));
            assert(views(out@) + lines_from(cur@, v@.skip(i + 1)) =~= old_out + (seq![
                strip_cr(old_cur),
            ] + lines_from(Seq::empty(), v@.skip(i + 1))));
        } else {
            cur.push(v[i]);
        }
        i = i + 1;
    }
    assert(v@.skip(v.len() as int) =~= Seq::<char>::empty());
    if cur.len() > 0 {
        let ghost old_out = views(out@);
        let ghost old_cur = cur@;
        out.push(cur);
        assert(views(out@) =~= old_out.push(old_cur));
        assert(views(out@) =~= old_out + seq![old_cur]);
    } else {
        assert(views(out@) =~= views(out@) + Seq::<Seq<char>>::empty());
    }
    out
}

/// The parts joined with `sep` between each two of them.
pub fn join_chars(parts: &Vec<Vec<char>>, sep: &Vec<char>) -> (r: Vec<char>)
    ensures
        r@ == join(views(parts@), sep@),
{
    let mut acc: Vec<char> = Vec::new();
    let mut i: usize = 0;
    while i < parts.len()
        invariant
            i <= parts.len(),
            acc@ == join(views(parts@).take(i as int), sep@),
        decreases parts.len() - i,
    {
        let ghost ps = views(parts@);
        if i > 0 {
            append_chars(&mut acc, sep);
        }
        append_chars(&mut acc, &parts[i]);
        assert(ps.take(i + 1).drop_last() =~= ps.take(i as int));
        assert(ps.take(i + 1).last() == parts@[i as int]@);
        if i == 0 {
            assert(acc@ =~= parts@[0]@);
        }
        i = i + 1;
    }
    assert(views(parts@).take(parts.len() as int) =~= views(parts@));
    acc
}

/// Appends the decimal digits of `n` to `out`.
pub fn push_decimal(n: usize, out: &mut Vec<char>)
    ensures
        final(out)@ == old(out)@ + decimal(n as nat),
    decreases n,
{
    if n < 10 {
        out.push((48u8 + n as u8) as char);
        assert(out@ =~= old(out)@ + decimal(n as nat));
    } else {
        push_decimal(n / 10, out);
        out.push((48u8 + (n % 10) as u8) as char);
        assert(out@ =~= old(out)@ + decimal(n as nat));
    }
}

proof fn lemma_strip_start_clean(s: Seq<char>, class: CharClass)
    ensures
        leading_count(strip_start(s, class), class) == 0,
    decreases s.len(),
{
    if s.len() > 0 && in_class(class, s[0]) {
        lemma_strip_start_clean(s.drop_first(), class);
        lemma_leading_count_bound(s.drop_first(), class);
        assert(s.skip(leading_count(s, class) as int) =~= s.drop_first().skip(
            leading_count(s.drop_first(), class) as int,
        ));
    } else {
        assert(s.skip(0) =~= s);
    }
}

proof fn lemma_strip_end_clean(s: Seq<char>, class: CharClass)
    ensures
        trailing_count(strip_end(s, class), class) == 0,
    decreases s.len(),
{
    if s.len() > 0 && in_class(class, s.last()) {
        lemma_strip_end_clean(s.drop_last(), class);
        lemma_trailing_count_bound(s.drop_last(), class);
        assert(s.take(s.len() - trailing_count(s, class)) =~= s.drop_last().take(
            s.drop_last().len() - trailing_count(s.drop_last(), class),
        ));
    } else {
        assert(s.take(s.len() as int) =~= s);
    }
}

/// Trimming a trimmed text changes nothing.
pub proof fn lemma_trim_idempotent(s: Seq<char>)
    ensures
        trim(trim(s)) == trim(s),
{
    let u = trim_start(s);
    lemma_strip_start_clean(s, CharClass::WhiteSpace);
    let v = trim_end(u);
    lemma_strip_end_clean(u, CharClass::WhiteSpace);
    lemma_trailing_count_bound(u, CharClass::WhiteSpace);
    if v.len() > 0 {
        assert(v[0] == u[0]);
    }
    assert(leading_count(v, CharClass::WhiteSpace) == 0);
    assert(trim_start(v) =~= v);
    assert(trim_end(v) =~= v);
}

pub proof fn lemma_decimal_len(n: nat)
    ensures
        decimal(n).len() >= 1,
        n >= 10 ==> decimal(n).len() >= 2,
    decreases n,
{
    if n >= 10 {
        lemma_decimal_len(n / 10);
    }
}

proof fn lemma_digit_char_injective(a: nat, b: nat)
    requires
        a < 10,
        b < 10,
        digit_char(a) == digit_char(b),
    ensures
        a == b,
{
    assert(digit_char(a) as u32 == a + 48);
    assert(digit_char(b) as u32 == b + 48);
}

/// Different numbers have different decimal digits.
pub proof fn lemma_decimal_injective(a: nat, b: nat)
    requires
        decimal(a) == decimal(b),
    ensures
        a == b,
    decreases a,
{
    lemma_decimal_len(a);
    lemma_decimal_len(b);
    if a < 10 && b < 10 {
        assert(decimal(a)[0] == digit_char(a));
        assert(decimal(b)[0] == digit_char(b));
        lemma_digit_char_injective(a, b);
    } else if a >= 10 && b >= 10 {
        let da = decimal(a);
        let db = decimal(b);
        assert(da.last() == digit_char(a % 10));
        assert(db.last() == digit_char(b % 10));
        lemma_digit_char_injective(a % 10, b % 10);
        assert(da.drop_last() =~= decimal(a / 10));
        assert(db.drop_last() =~= decimal(b / 10));
        lemma_decimal_injective(a / 10, b / 10);
    } else {
        lemma_decimal_len(if a >= 10 { a } else { b });
    }
}

/// Every character of a decimal is a digit.
pub proof fn lemma_decimal_digits(n: nat)
    ensures
        forall|i: int| 0 <= i < decimal(n).len() ==> in_class(CharClass::AsciiDigit, #[trigger] decimal(n)[i]),
    decreases n,
{
    if n >= 10 {
        lemma_decimal_digits(n / 10);
        assert forall|i: int| 0 <= i < decimal(n).len() implies in_class(CharClass::AsciiDigit, #[trigger] decimal(n)[i]) by {
            if i < decimal(n).len() - 1 {
                assert(decimal(n)[i] == decimal(n / 10)[i]);
            } else {
                assert(digit_char(n % 10) as u32 == n % 10 + 48);
            }
        }
    } else {
        assert(digit_char(n) as u32 == n + 48);
    }
}
}
