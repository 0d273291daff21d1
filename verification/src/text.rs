//! Text operations on `str` and `String`, stated over sequences of characters.

use vstd::prelude::*;
use vstd::string::*;

verus! {

/// The texts held by a sequence of strings.
pub open spec fn texts(list: Seq<String>) -> Seq<Seq<char>> {
    list.map_values(|s: String| s@)
}

/// The text held by an optional string.
pub open spec fn opt_text(s: Option<String>) -> Option<Seq<char>> {
    match s {
        Some(t) => Some(t@),
        None => None,
    }
}

/// The text of an optional string slice.
pub open spec fn opt_str(s: Option<&str>) -> Option<Seq<char>> {
    match s {
        Some(t) => Some(t@),
        None => None,
    }
}

/// `pattern` stands in `s` at position `i`.
pub open spec fn occurs_at(s: Seq<char>, i: int, pattern: Seq<char>) -> bool {
    &&& 0 <= i
    &&& i + pattern.len() <= s.len()
    &&& s.subrange(i, i + pattern.len()) == pattern
}

/// `s` begins with `prefix`.
pub open spec fn begins_with(s: Seq<char>, prefix: Seq<char>) -> bool {
    occurs_at(s, 0, prefix)
}

/// `pattern` stands somewhere in `s`.
pub open spec fn contains_text(s: Seq<char>, pattern: Seq<char>) -> bool {
    exists|i: int| occurs_at(s, i, pattern)
}

/// The characters of a text, one after the other.
pub fn chars_of(s: &str) -> (r: Vec<char>)
    ensures
        r@ == s@,
{
    let mut r: Vec<char> = Vec::new();
    for c in it: s.chars()
        invariant
            it.seq() == s@,
            r@ == s@.take(it.index() as int),
    {
        r.push(c);
    }
    r
}

/// Whether two texts hold the same characters.
pub fn same(a: &str, b: &str) -> (r: bool)
    ensures
        r == (a@ == b@),
{
    a.eq(b)
}

/// Whether `pattern` stands in `cs` at position `i`.
fn occurs(cs: &Vec<char>, i: usize, pattern: &Vec<char>) -> (r: bool)
    requires
        i <= cs@.len(),
    ensures
        r == occurs_at(cs@, i as int, pattern@),
{
    if pattern.len() > cs.len() - i {
        return false;
    }
    let mut k: usize = 0;
    while k < pattern.len()
        invariant
            i + pattern@.len() <= cs@.len() <= usize::MAX,
            k <= pattern@.len(),
            forall|j: int| 0 <= j < k ==> cs@[i + j] == pattern@[j],
        decreases pattern@.len() - k,
    {
        if cs[i + k] != pattern[k] {
            assert(cs@.subrange(i as int, i + pattern@.len())[k as int] != pattern@[k as int]);
            return false;
        }
        k = k + 1;
    }
    assert(cs@.subrange(i as int, i + pattern@.len()) == pattern@);
    true
}

/// Whether `s` begins with `prefix`.
pub fn starts_with(s: &str, prefix: &str) -> (r: bool)
    ensures
        r == begins_with(s@, prefix@),
{
    occurs(&chars_of(s), 0, &chars_of(prefix))
}

/// What follows `prefix` in `s`, where `s` begins with it.
pub fn strip_prefix(s: &str, prefix: &str) -> (r: Option<String>)
    ensures
        r is Some <==> begins_with(s@, prefix@),
        r matches Some(t) ==> t@ == s@.skip(prefix@.len() as int),
{
    if starts_with(s, prefix) {
        Some(s.substring_char(prefix.unicode_len(), s.unicode_len()).to_owned())
    } else {
        None
    }
}

/// Whether `pattern` stands somewhere in `s`.
pub fn contains(s: &str, pattern: &str) -> (r: bool)
    ensures
        r == contains_text(s@, pattern@),
{
    let cs = chars_of(s);
    let p = chars_of(pattern);
    let mut i: usize = 0;
    while i < cs.len()
        invariant
            cs@ == s@,
            p@ == pattern@,
            i <= cs@.len(),
            forall|j: int| 0 <= j < i ==> !occurs_at(s@, j, pattern@),
        decreases cs@.len() - i,
    {
        if occurs(&cs, i, &p) {
            return true;
        }
        i = i + 1;
    }
    occurs(&cs, i, &p)
}

/// `s` with every occurrence of `pattern`, taken from the left and without
/// overlap, replaced by `with`.
pub open spec fn replace_all(s: Seq<char>, pattern: Seq<char>, with: Seq<char>) -> Seq<char>
    decreases s.len(),
{
    if pattern.len() == 0 || s.len() < pattern.len() {
        s
    } else if begins_with(s, pattern) {
        with + replace_all(s.skip(pattern.len() as int), pattern, with)
    } else {
        seq![s[0]] + replace_all(s.skip(1), pattern, with)
    }
}

/// Replaces every occurrence of `pattern` in `s` by `with`.
pub fn replace(s: &str, pattern: &str, with: &str) -> (r: String)
    requires
        pattern@.len() > 0,
    ensures
        r@ == replace_all(s@, pattern@, with@),
{
    let cs = chars_of(s);
    let p = chars_of(pattern);
    let mut out = String::new();
    let mut start: usize = 0;
    let mut i: usize = 0;
    assert(s@.skip(0) == s@);
    while i < cs.len() && cs.len() - i >= p.len()
        invariant
            cs@ == s@,
            p@ == pattern@,
            p@.len() > 0,
            start <= i <= cs@.len(),
            replace_all(s@, pattern@, with@) == out@ + s@.subrange(start as int, i as int)
                + replace_all(s@.skip(i as int), pattern@, with@),
        decreases cs@.len() - i,
    {
        let ghost rest = s@.skip(i as int);
        assert(occurs_at(s@, i as int, pattern@) <==> begins_with(rest, pattern@)) by {
            assert(rest.subrange(0, pattern@.len() as int) == s@.subrange(
                i as int,
                i + pattern@.len(),
            ));
        }
        if occurs(&cs, i, &p) {
            out.append(s.substring_char(start, i));
            out.append(with);
            i = i + p.len();
            start = i;
            assert(rest.skip(pattern@.len() as int) == s@.skip(i as int));
        } else {
            i = i + 1;
            assert(rest.skip(1) == s@.skip(i as int));
            assert(s@.subrange(start as int, i as int) == s@.subrange(start as int, i - 1)
                + seq![rest[0]]);
        }
        assert(replace_all(s@, pattern@, with@) == out@ + s@.subrange(start as int, i as int)
            + replace_all(s@.skip(i as int), pattern@, with@));
    }
    out.append(s.substring_char(start, cs.len()));
    assert(s@.subrange(start as int, s@.len() as int) == s@.subrange(start as int, i as int)
        + s@.skip(i as int));
    out
}

/// The position of the first `c` in `s`.
pub fn find_char(s: &str, c: char) -> (r: Option<usize>)
    ensures
        r is None <==> !s@.contains(c),
        r matches Some(i) ==> i < s@.len() && s@[i as int] == c && !s@.take(i as int).contains(c),
{
    let cs = chars_of(s);
    let mut i: usize = 0;
    while i < cs.len()
        invariant
            cs@ == s@,
            i <= cs@.len(),
            forall|j: int| 0 <= j < i ==> s@[j] != c,
        decreases cs@.len() - i,
    {
        if cs[i] == c {
            return Some(i);
        }
        i = i + 1;
    }
    None
}

/// The pieces into which every `sep` cuts `s`: one more than there are `sep`.
pub open spec fn split_at_char(s: Seq<char>, sep: char) -> Seq<Seq<char>>
    decreases s.len(),
{
    if s.len() == 0 {
        seq![Seq::empty()]
    } else {
        let before = split_at_char(s.drop_last(), sep);
        if s.last() == sep {
            before.push(Seq::empty())
        } else {
            before.drop_last().push(before.last().push(s.last()))
        }
    }
}

/// Cuts `s` at every `sep`.
pub fn split(s: &str, sep: char) -> (r: Vec<String>)
    ensures
        texts(r@) == split_at_char(s@, sep),
{
    let cs = chars_of(s);
    let mut out: Vec<String> = Vec::new();
    let mut start: usize = 0;
    let mut i: usize = 0;
    assert(texts(out@).push(s@.subrange(0, 0)) =~~= split_at_char(s@.take(0), sep));
    while i < cs.len()
        invariant
            cs@ == s@,
            start <= i <= cs@.len(),
            texts(out@).push(s@.subrange(start as int, i as int)) == split_at_char(
                s@.take(i as int),
                sep,
            ),
        decreases cs@.len() - i,
    {
        let ghost before = texts(out@).push(s@.subrange(start as int, i as int));
        assert(s@.take(i + 1).drop_last() == s@.take(i as int));
        assert(before.drop_last() == texts(out@));
        if cs[i] == sep {
            out.push(s.substring_char(start, i).to_owned());
            i = i + 1;
            start = i;
            assert(texts(out@) =~= before);
            assert(s@.subrange(start as int, i as int) =~= Seq::empty());
        } else {
            i = i + 1;
            assert(s@.subrange(start as int, i as int) == s@.subrange(start as int, i - 1).push(
                s@[i - 1],
            ));
        }
    }
    let ghost before = texts(out@);
    out.push(s.substring_char(start, cs.len()).to_owned());
    assert(texts(out@) =~= before.push(s@.subrange(start as int, s@.len() as int)));
    assert(s@.take(s@.len() as int) == s@);
    out
}

/// `s` without the run of `c` at its end.
pub open spec fn without_trailing(s: Seq<char>, c: char) -> Seq<char>
    decreases s.len(),
{
    if s.len() > 0 && s.last() == c {
        without_trailing(s.drop_last(), c)
    } else {
        s
    }
}

/// Takes the run of `c` off the end of `s`.
pub fn trim_end_char(s: &str, c: char) -> (r: String)
    ensures
        r@ == without_trailing(s@, c),
{
    let cs = chars_of(s);
    let mut end: usize = cs.len();
    assert(s@.take(end as int) == s@);
    while end > 0 && cs[end - 1] == c
        invariant
            cs@ == s@,
            end <= cs@.len(),
            without_trailing(s@, c) == without_trailing(s@.take(end as int), c),
        decreases end,
    {
        assert(s@.take(end as int).drop_last() == s@.take(end - 1));
        end = end - 1;
    }
    assert(end > 0 ==> s@.take(end as int).last() == s@[end - 1]);
    s.substring_char(0, end).to_owned()
}

/// The characters with the Unicode property White_Space.
pub open spec fn is_white_space(c: char) -> bool {
    ||| '\u{9}' <= c <= '\u{d}'
    ||| c == '\u{20}'
    ||| c == '\u{85}'
    ||| c == '\u{a0}'
    ||| c == '\u{1680}'
    ||| '\u{2000}' <= c <= '\u{200a}'
    ||| c == '\u{2028}'
    ||| c == '\u{2029}'
    ||| c == '\u{202f}'
    ||| c == '\u{205f}'
    ||| c == '\u{3000}'
}

/// Whether `c` is white space.
pub fn white_space(c: char) -> (r: bool)
    ensures
        r == is_white_space(c),
{
    ('\u{9}' <= c && c <= '\u{d}') || c == '\u{20}' || c == '\u{85}' || c == '\u{a0}' || c
        == '\u{1680}' || ('\u{2000}' <= c && c <= '\u{200a}') || c == '\u{2028}' || c
        == '\u{2029}' || c == '\u{202f}' || c == '\u{205f}' || c == '\u{3000}'
}

/// `s` without the white space at its beginning.
pub open spec fn without_leading_space(s: Seq<char>) -> Seq<char>
    decreases s.len(),
{
    if s.len() > 0 && is_white_space(s[0]) {
        without_leading_space(s.skip(1))
    } else {
        s
    }
}

/// `s` without the white space at its end.
pub open spec fn without_trailing_space(s: Seq<char>) -> Seq<char>
    decreases s.len(),
{
    if s.len() > 0 && is_white_space(s.last()) {
        without_trailing_space(s.drop_last())
    } else {
        s
    }
}

/// `s` without the white space at either end.
pub open spec fn trimmed(s: Seq<char>) -> Seq<char> {
    without_trailing_space(without_leading_space(s))
}

/// Takes the white space off both ends of `s`.
pub fn trim(s: &str) -> (r: String)
    ensures
        r@ == trimmed(s@),
{
    let cs = chars_of(s);
    let mut start: usize = 0;
    assert(s@.skip(0) == s@);
    while start < cs.len() && white_space(cs[start])
        invariant
            cs@ == s@,
            start <= cs@.len(),
            without_leading_space(s@) == without_leading_space(s@.skip(start as int)),
        decreases cs@.len() - start,
    {
        assert(s@.skip(start as int).skip(1) == s@.skip(start + 1));
        start = start + 1;
    }
    let ghost tail = s@.skip(start as int);
    assert(without_leading_space(s@) == tail);
    let mut end: usize = cs.len();
    assert(s@.subrange(start as int, end as int) == tail);
    while end > start && white_space(cs[end - 1])
        invariant
            cs@ == s@,
            start <= end <= cs@.len(),
            without_trailing_space(tail) == without_trailing_space(
                s@.subrange(start as int, end as int),
            ),
        decreases end,
    {
        assert(s@.subrange(start as int, end as int).drop_last() == s@.subrange(
            start as int,
            end - 1,
        ));
        end = end - 1;
    }
    s.substring_char(start, end).to_owned()
}

/// The decimal digit `d`.
pub open spec fn digit_char(d: nat) -> char {
    (48 + d) as char
}

/// `n` written in decimal, without leading zeros.
pub open spec fn decimal(n: nat) -> Seq<char>
    decreases n,
{
    if n < 10 {
        seq![digit_char(n)]
    } else {
        decimal(n / 10).push(digit_char(n % 10))
    }
}

fn digit(d: u64) -> (r: &'static str)
    requires
        d < 10,
    ensures
        r@ == seq![digit_char(d as nat)],
{
    proof {
        reveal_strlit("0");
        reveal_strlit("1");
        reveal_strlit("2");
        reveal_strlit("3");
        reveal_strlit("4");
        reveal_strlit("5");
        reveal_strlit("6");
        reveal_strlit("7");
        reveal_strlit("8");
        reveal_strlit("9");
    }
    match d {
        0 => "0",
        1 => "1",
        2 => "2",
        3 => "3",
        4 => "4",
        5 => "5",
        6 => "6",
        7 => "7",
        8 => "8",
        _ => "9",
    }
}

/// Writes `n` in decimal.
pub fn to_decimal(n: u64) -> (r: String)
    ensures
        r@ == decimal(n as nat),
    decreases n,
{
    if n < 10 {
        digit(n).to_owned()
    } else {
        let rest: u64 = n / 10;
        to_decimal(rest).concat(digit(n % 10))
    }
}

/// A text begins with a prefix exactly if it is the prefix with something after
/// it, and contains a pattern exactly if it is the pattern with something on
/// either side.
pub proof fn law_occurrence(s: Seq<char>, pattern: Seq<char>, before: Seq<char>, after: Seq<char>)
    ensures
        begins_with(pattern + after, pattern),
        begins_with(s, pattern) ==> s == pattern + s.skip(pattern.len() as int),
        contains_text(before + pattern + after, pattern),
        contains_text(s, pattern) ==> exists|a: Seq<char>, b: Seq<char>|
            s == #[trigger] (a + pattern + b),
{
    let t = pattern + after;
    assert(t.subrange(0, pattern.len() as int) =~= pattern);
    let u = before + pattern + after;
    assert(u.subrange(before.len() as int, before.len() + pattern.len() as int) =~= pattern);
    assert(occurs_at(u, before.len() as int, pattern));
    if begins_with(s, pattern) {
        assert(s =~= s.subrange(0, pattern.len() as int) + s.skip(pattern.len() as int));
    }
    if contains_text(s, pattern) {
        let i = choose|i: int| occurs_at(s, i, pattern);
        let a = s.take(i);
        let b = s.skip(i + pattern.len());
        assert(s =~= a + s.subrange(i, i + pattern.len()) + b);
        assert(s == a + pattern + b);
    }
}

proof fn lemma_occurs_in_rest(s: Seq<char>, i: int, pattern: Seq<char>)
    requires
        s.len() > 0,
        occurs_at(s.skip(1), i, pattern),
    ensures
        occurs_at(s, i + 1, pattern),
{
    assert(s.subrange(i + 1, i + 1 + pattern.len()) =~= s.skip(1).subrange(i, i + pattern.len()));
}

/// Nothing is replaced in a text without the pattern.
pub proof fn law_replace_absent(s: Seq<char>, pattern: Seq<char>, with: Seq<char>)
    requires
        !contains_text(s, pattern),
    ensures
        replace_all(s, pattern, with) == s,
    decreases s.len(),
{
    if pattern.len() > 0 && s.len() >= pattern.len() {
        assert(!occurs_at(s, 0, pattern));
        assert forall|i: int| !occurs_at(s.skip(1), i, pattern) by {
            if occurs_at(s.skip(1), i, pattern) {
                lemma_occurs_in_rest(s, i, pattern);
            }
        }
        law_replace_absent(s.skip(1), pattern, with);
        assert(seq![s[0]] + s.skip(1) == s);
    }
}

/// In a text with the pattern its first occurrence is replaced, and then what
/// follows it is looked through.
pub proof fn law_replace_first(
    before: Seq<char>,
    pattern: Seq<char>,
    after: Seq<char>,
    with: Seq<char>,
)
    requires
        pattern.len() > 0,
        forall|i: int|
            0 <= i < before.len() ==> !occurs_at(before + pattern + after, i, pattern),
    ensures
        replace_all(before + pattern + after, pattern, with) == before + with + replace_all(
            after,
            pattern,
            with,
        ),
    decreases before.len(),
{
    let s = before + pattern + after;
    let done = replace_all(after, pattern, with);
    if before.len() == 0 {
        assert(s.subrange(0, pattern.len() as int) =~= pattern);
        assert(s.skip(pattern.len() as int) =~= after);
        assert(with + done =~= before + with + done);
    } else {
        let rest = before.skip(1);
        let tail = rest + pattern + after;
        assert(s.skip(1) =~= tail);
        assert forall|i: int| 0 <= i < rest.len() implies !occurs_at(tail, i, pattern) by {
            if occurs_at(tail, i, pattern) {
                lemma_occurs_in_rest(s, i, pattern);
            }
        }
        law_replace_first(rest, pattern, after, with);
        assert(!occurs_at(s, 0, pattern));
        assert(seq![s[0]] + (rest + with + done) =~= before + with + done);
    }
}

/// A text without the separator is one piece; a separator ends a piece and begins
/// another. So the pieces, with separators between them, are the text.
pub proof fn law_split(before: Seq<char>, piece: Seq<char>, sep: char)
    requires
        !piece.contains(sep),
    ensures
        split_at_char(piece, sep) == seq![piece],
        split_at_char(before.push(sep) + piece, sep) == split_at_char(before, sep).push(piece),
    decreases piece.len(),
{
    let s = before.push(sep) + piece;
    if piece.len() == 0 {
        assert(s =~= before.push(sep));
        assert(s.drop_last() =~= before);
        assert(split_at_char(piece, sep) =~~= seq![piece]);
        assert(split_at_char(s, sep) =~~= split_at_char(before, sep).push(piece));
    } else {
        let init = piece.drop_last();
        assert forall|i: int| 0 <= i < init.len() implies init[i] != sep by {
            assert(piece[i] == init[i]);
            assert(piece.contains(piece[i]));
        }
        assert(piece.contains(piece.last()));
        law_split(before, init, sep);
        assert(s.drop_last() =~= before.push(sep) + init);
        assert(s.last() == piece.last());
        assert(init.push(piece.last()) =~= piece);
        assert(split_at_char(piece, sep) =~~= seq![piece]);
        let shorter = split_at_char(before, sep).push(init);
        assert(shorter.drop_last() =~= split_at_char(before, sep));
        assert(split_at_char(s, sep) =~~= split_at_char(before, sep).push(piece));
    }
}

/// `n` times `c`.
pub open spec fn run_of(c: char, n: nat) -> Seq<char> {
    Seq::new(n, |i: int| c)
}

/// What is taken off the end is a run of the character, and all of it.
pub proof fn law_without_trailing(s: Seq<char>, c: char)
    ensures
        without_trailing(s, c).len() <= s.len(),
        s == without_trailing(s, c) + run_of(c, (s.len() - without_trailing(s, c).len()) as nat),
        without_trailing(s, c).len() > 0 ==> without_trailing(s, c).last() != c,
    decreases s.len(),
{
    let r = without_trailing(s, c);
    if s.len() > 0 && s.last() == c {
        let init = s.drop_last();
        law_without_trailing(init, c);
        assert(s =~= init.push(c));
        assert(run_of(c, (s.len() - r.len()) as nat) =~= run_of(
            c,
            (init.len() - r.len()) as nat,
        ).push(c));
        assert(s =~= r + run_of(c, (s.len() - r.len()) as nat));
    } else {
        assert(s =~= r + run_of(c, 0));
    }
}

/// All of a text is white space.
pub open spec fn blank(s: Seq<char>) -> bool {
    forall|i: int| 0 <= i < s.len() ==> is_white_space(#[trigger] s[i])
}

proof fn lemma_leading(s: Seq<char>) -> (a: Seq<char>)
    ensures
        s == a + without_leading_space(s),
        blank(a),
        without_leading_space(s).len() > 0 ==> !is_white_space(without_leading_space(s)[0]),
    decreases s.len(),
{
    if s.len() > 0 && is_white_space(s[0]) {
        let b = lemma_leading(s.skip(1));
        let a = seq![s[0]] + b;
        assert(s =~= seq![s[0]] + s.skip(1));
        assert(s =~= a + without_leading_space(s));
        a
    } else {
        assert(s =~= Seq::<char>::empty() + s);
        Seq::empty()
    }
}

proof fn lemma_trailing(s: Seq<char>) -> (a: Seq<char>)
    ensures
        s == without_trailing_space(s) + a,
        blank(a),
        without_trailing_space(s).len() > 0 ==> !is_white_space(without_trailing_space(s).last())
            && without_trailing_space(s)[0] == s[0],
    decreases s.len(),
{
    if s.len() > 0 && is_white_space(s.last()) {
        let b = lemma_trailing(s.drop_last());
        let a = b.push(s.last());
        assert(s =~= s.drop_last().push(s.last()));
        assert(s =~= without_trailing_space(s) + a);
        a
    } else {
        assert(s =~= s + Seq::<char>::empty());
        Seq::empty()
    }
}

/// A text is its trimmed text with white space around it, and a trimmed text
/// neither begins nor ends with white space.
pub proof fn law_trimmed(s: Seq<char>)
    ensures
        exists|a: Seq<char>, b: Seq<char>|
            s == #[trigger] (a + trimmed(s) + b) && blank(a) && blank(b),
        trimmed(s).len() > 0 ==> !is_white_space(trimmed(s)[0]) && !is_white_space(
            trimmed(s).last(),
        ),
        trimmed(s).len() == 0 ==> blank(s),
{
    let a = lemma_leading(s);
    let b = lemma_trailing(without_leading_space(s));
    assert(s =~= a + trimmed(s) + b);
    if trimmed(s).len() == 0 {
        assert(s =~= a + b);
    }
}

/// The number that decimal digits stand for.
pub open spec fn decimal_value(s: Seq<char>) -> int
    decreases s.len(),
{
    if s.len() == 0 {
        0
    } else {
        10 * decimal_value(s.drop_last()) + (s.last() as int - '0' as int)
    }
}

/// A number written in decimal consists of digits, reads back as the number, and
/// has no leading zero unless it is zero.
pub proof fn law_decimal(n: nat)
    ensures
        decimal(n).len() > 0,
        decimal_value(decimal(n)) == n,
        forall|i: int| 0 <= i < decimal(n).len() ==> '0' <= #[trigger] decimal(n)[i] <= '9',
        n > 0 ==> decimal(n)[0] != '0',
    decreases n,
{
    reveal_with_fuel(decimal_value, 2);
    if n < 10 {
        assert(decimal(n).drop_last() =~= Seq::<char>::empty());
    } else {
        law_decimal(n / 10);
        assert(decimal(n).drop_last() =~= decimal(n / 10));
        assert(decimal(n)[0] == decimal(n / 10)[0]);
        assert forall|i: int| 0 <= i < decimal(n).len() implies '0' <= #[trigger] decimal(n)[i]
            <= '9' by {
            if i < decimal(n).len() - 1 {
                assert(decimal(n)[i] == decimal(n / 10)[i]);
            }
        }
    }
}

/// The texts of a list stand in their places; an optional text is there exactly if
/// its string is.
pub proof fn law_texts(list: Seq<String>, i: int, s: Option<String>, t: Option<&str>)
    ensures
        texts(list).len() == list.len(),
        0 <= i < list.len() ==> texts(list)[i] == list[i]@,
        match s {
            Some(x) => opt_text(s) == Some(x@),
            None => opt_text(s) is None,
        },
        match t {
            Some(x) => opt_str(t) == Some(x@),
            None => opt_str(t) is None,
        },
{
}

/// Where something is replaced, the replacement stands in the result.
pub proof fn law_replacement_occurs(s: Seq<char>, pattern: Seq<char>, with: Seq<char>)
    requires
        pattern.len() > 0,
        contains_text(s, pattern),
    ensures
        contains_text(replace_all(s, pattern, with), with),
    decreases s.len(),
{
    let r = replace_all(s, pattern, with);
    let i = choose|i: int| occurs_at(s, i, pattern);
    if begins_with(s, pattern) {
        law_occurrence(r, with, Seq::empty(), replace_all(s.skip(pattern.len() as int), pattern, with));
        assert(Seq::<char>::empty() + with =~= with);
    } else {
        let rest = s.skip(1);
        assert(rest.subrange(i - 1, i - 1 + pattern.len()) =~= s.subrange(i, i + pattern.len()));
        assert(occurs_at(rest, i - 1, pattern));
        law_replacement_occurs(rest, pattern, with);
        let done = replace_all(rest, pattern, with);
        let j = choose|j: int| occurs_at(done, j, with);
        assert(r.subrange(j + 1, j + 1 + with.len()) =~= done.subrange(j, j + with.len()));
        assert(occurs_at(r, j + 1, with));
    }
}

} // verus!
