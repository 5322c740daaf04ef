//! Text as a sequence of characters: searching, splitting, trimming and decimal numbers.
//!
//! The view of a `&str` or a `String` is a `Seq<char>`. The spec functions of this module say
//! what a piece of text contains or splits into; the executable functions compute the same.

use vstd::prelude::*;
use vstd::utf8::*;

verus! {

// ---------------------------------------------------------------------------------------------
// What text is
// ---------------------------------------------------------------------------------------------

/// The views of a sequence of strings.
pub open spec fn texts(strings: Seq<String>) -> Seq<Seq<char>> {
    strings.map_values(|s: String| s@)
}

/// `p` stands in `s` at position `i`.
pub open spec fn occurs_at(s: Seq<char>, p: Seq<char>, i: int) -> bool {
    0 <= i && i + p.len() <= s.len() && s.subrange(i, i + p.len()) == p
}

/// `p` stands somewhere in `s`.
pub open spec fn contains(s: Seq<char>, p: Seq<char>) -> bool {
    exists|i: int| #[trigger] occurs_at(s, p, i)
}

/// The first position at or after `from` at which `p` stands in `s`.
pub open spec fn find(s: Seq<char>, p: Seq<char>, from: int) -> Option<int>
    decreases s.len() - from + 1,
{
    if from + p.len() > s.len() {
        None
    } else if occurs_at(s, p, from) {
        Some(from)
    } else {
        find(s, p, from + 1)
    }
}

/// The first position at or after `from` that holds `c`, or the length of `s` if none does.
pub open spec fn index_of(s: Seq<char>, c: char, from: int) -> int
    decreases s.len() - from,
{
    if from >= s.len() {
        s.len() as int
    } else if s[from] == c {
        from
    } else {
        index_of(s, c, from + 1)
    }
}

/// What stands before the first `c`; all of `s` if there is none.
pub open spec fn before_first(s: Seq<char>, c: char) -> Seq<char> {
    s.take(index_of(s, c, 0))
}

/// What stands after the last `c`; all of `s` if there is none.
pub open spec fn after_last(s: Seq<char>, c: char) -> Seq<char>
    decreases s.len(),
{
    if s.len() == 0 || s.last() == c {
        Seq::empty()
    } else {
        after_last(s.drop_last(), c).push(s.last())
    }
}

/// What stands between the first `c` and the next one, or the end of `s`; `None` without a `c`.
pub open spec fn second_field(s: Seq<char>, c: char) -> Option<Seq<char>> {
    let i = index_of(s, c, 0);
    if i < s.len() {
        Some(s.subrange(i + 1, index_of(s, c, i + 1)))
    } else {
        None
    }
}

/// The Unicode property `White_Space`.
pub open spec fn white_space(c: char) -> bool {
    ||| 0x9 <= c as u32 <= 0xd
    ||| c as u32 == 0x20
    ||| c as u32 == 0x85
    ||| c as u32 == 0xa0
    ||| c as u32 == 0x1680
    ||| 0x2000 <= c as u32 <= 0x200a
    ||| c as u32 == 0x2028
    ||| c as u32 == 0x2029
    ||| c as u32 == 0x202f
    ||| c as u32 == 0x205f
    ||| c as u32 == 0x3000
}

/// The maximal runs of `s` that hold no white space, in order.
pub open spec fn words(s: Seq<char>) -> Seq<Seq<char>>
    decreases s.len(),
{
    if s.len() == 0 {
        Seq::empty()
    } else {
        let before = words(s.drop_last());
        if white_space(s.last()) {
            before
        } else if s.len() >= 2 && !white_space(s[s.len() - 2]) {
            before.drop_last().push(before.last().push(s.last()))
        } else {
            before.push(seq![s.last()])
        }
    }
}

/// `s` without the white space that it starts with.
pub open spec fn trim_start(s: Seq<char>) -> Seq<char>
    decreases s.len(),
{
    if s.len() > 0 && white_space(s[0]) {
        trim_start(s.drop_first())
    } else {
        s
    }
}

/// `s` without the white space that it ends with.
pub open spec fn trim_end(s: Seq<char>) -> Seq<char>
    decreases s.len(),
{
    if s.len() > 0 && white_space(s.last()) {
        trim_end(s.drop_last())
    } else {
        s
    }
}

/// `s` without white space at either end.
pub open spec fn trim(s: Seq<char>) -> Seq<char> {
    trim_end(trim_start(s))
}

/// A line without the carriage return that belongs to its line break.
pub open spec fn without_return(line: Seq<char>) -> Seq<char> {
    if line.len() > 0 && line.last() == '\r' {
        line.drop_last()
    } else {
        line
    }
}

/// The lines of `s` from position `from` on. A line ends with `\n` or `\r\n`, neither of which
/// belongs to it; the last line needs no ending.
pub open spec fn lines(s: Seq<char>, from: int) -> Seq<Seq<char>>
    decreases s.len() - from,
    via lines_decreases
{
    if from < 0 || from >= s.len() {
        Seq::empty()
    } else {
        let end = index_of(s, '\n', from);
        if end < s.len() {
            seq![without_return(s.subrange(from, end))] + lines(s, end + 1)
        } else {
            seq![s.subrange(from, end)]
        }
    }
}

#[via_fn]
proof fn lines_decreases(s: Seq<char>, from: int) {
    if 0 <= from <= s.len() {
        lemma_index_of(s, '\n', from);
    }
}

/// The decimal digit that stands for `d`.
pub open spec fn digit(d: nat) -> char
    recommends
        d < 10,
{
    (0x30 + d) as char
}

/// `n` in decimal notation.
pub open spec fn decimal(n: nat) -> Seq<char>
    decreases n,
{
    if n < 10 {
        seq![digit(n)]
    } else {
        decimal(n / 10).push(digit(n % 10))
    }
}

/// `c` is one of `0` to `9`.
pub open spec fn is_digit(c: char) -> bool {
    0x30 <= c as u32 <= 0x39
}

/// Every character of `s` is a decimal digit.
pub open spec fn all_digits(s: Seq<char>) -> bool {
    forall|i: int| 0 <= i < s.len() ==> is_digit(#[trigger] s[i])
}

/// The number that a row of decimal digits stands for.
pub open spec fn digits_value(s: Seq<char>) -> nat
    decreases s.len(),
{
    if s.len() == 0 {
        0
    } else {
        digits_value(s.drop_last()) * 10 + (s.last() as u32 - 0x30) as nat
    }
}

/// The number that `s` stands for: an optional `+` and at least one decimal digit.
pub open spec fn unsigned_value(s: Seq<char>) -> Option<nat> {
    let digits = if s.len() > 0 && s[0] == '+' { s.drop_first() } else { s };
    if digits.len() > 0 && all_digits(digits) {
        Some(digits_value(digits))
    } else {
        None
    }
}

/// `c` with `a` to `z` made upper case.
pub open spec fn ascii_upper(c: char) -> char {
    if 'a' <= c && c <= 'z' {
        (c as u32 - 0x20) as char
    } else {
        c
    }
}

/// `c` with `A` to `Z` made lower case.
pub open spec fn ascii_lower(c: char) -> char {
    if 'A' <= c && c <= 'Z' {
        (c as u32 + 0x20) as char
    } else {
        c
    }
}

/// Text with `a` to `z` made upper case.
pub open spec fn ascii_uppercase(s: Seq<char>) -> Seq<char> {
    s.map_values(|c: char| ascii_upper(c))
}

/// Text with `A` to `Z` made lower case.
pub open spec fn ascii_lowercase(s: Seq<char>) -> Seq<char> {
    s.map_values(|c: char| ascii_lower(c))
}

// ---------------------------------------------------------------------------------------------
// Facts about the above
// ---------------------------------------------------------------------------------------------

/// `index_of` is the first position at or after `from` that holds `c`.
pub proof fn lemma_index_of(s: Seq<char>, c: char, from: int)
    requires
        0 <= from <= s.len(),
    ensures
        from <= index_of(s, c, from) <= s.len(),
        index_of(s, c, from) < s.len() ==> s[index_of(s, c, from)] == c,
        forall|j: int| from <= j < index_of(s, c, from) ==> #[trigger] s[j] != c,
    decreases s.len() - from,
{
    if from < s.len() && s[from] != c {
        lemma_index_of(s, c, from + 1);
    }
}

/// `find` is the first position at or after `from` at which `p` stands.
pub proof fn lemma_find(s: Seq<char>, p: Seq<char>, from: int)
    requires
        0 <= from,
    ensures
        match find(s, p, from) {
            Some(i) => from <= i && occurs_at(s, p, i) && forall|j: int|
                from <= j < i ==> !#[trigger] occurs_at(s, p, j),
            None => forall|j: int| from <= j ==> !#[trigger] occurs_at(s, p, j),
        },
    decreases s.len() - from + 1,
{
    if from + p.len() <= s.len() && !occurs_at(s, p, from) {
        lemma_find(s, p, from + 1);
    }
}

/// Text is found exactly where it is contained.
pub proof fn lemma_find_contains(s: Seq<char>, p: Seq<char>)
    ensures
        find(s, p, 0) is Some <==> contains(s, p),
{
    lemma_find(s, p, 0);
    if find(s, p, 0) is Some {
        assert(occurs_at(s, p, find(s, p, 0)->0));
    }
}

/// A character of two texts put together is one of either.
pub proof fn lemma_contains_char(a: Seq<char>, b: Seq<char>, c: char)
    ensures
        (a + b).contains(c) <==> a.contains(c) || b.contains(c),
{
    if a.contains(c) {
        let i = choose|i: int| 0 <= i < a.len() && a[i] == c;
        assert((a + b)[i] == c);
    }
    if b.contains(c) {
        let i = choose|i: int| 0 <= i < b.len() && b[i] == c;
        assert((a + b)[a.len() + i] == c);
    }
    if (a + b).contains(c) {
        let i = choose|i: int| 0 <= i < (a + b).len() && (a + b)[i] == c;
        if i < a.len() {
            assert(a[i] == c);
        } else {
            assert(b[i - a.len()] == c);
        }
    }
}

/// What `p` holds, a text that contains `p` holds too.
pub proof fn lemma_contains_needs_chars(s: Seq<char>, p: Seq<char>, c: char)
    requires
        p.contains(c),
    ensures
        contains(s, p) ==> s.contains(c),
{
    if contains(s, p) {
        let i = choose|i: int| #[trigger] occurs_at(s, p, i);
        let k = choose|k: int| 0 <= k < p.len() && p[k] == c;
        assert(s.subrange(i, i + p.len())[k] == c);
        assert(s[i + k] == c);
    }
}

/// The last segment holds no `c`, is a suffix, and stands behind a `c` where it is not all.
pub proof fn lemma_after_last(s: Seq<char>, c: char)
    ensures
        after_last(s, c).len() <= s.len(),
        after_last(s, c) == s.skip(s.len() - after_last(s, c).len()),
        forall|i: int| 0 <= i < after_last(s, c).len() ==> #[trigger] after_last(s, c)[i] != c,
        after_last(s, c).len() < s.len() ==> s[s.len() - after_last(s, c).len() - 1] == c,
    decreases s.len(),
{
    if s.len() > 0 && s.last() != c {
        let t = s.drop_last();
        lemma_after_last(t, c);
        let a = after_last(t, c);
        assert(a.push(s.last()) =~= s.skip(s.len() - (a.len() + 1)));
        assert(after_last(s, c) == a.push(s.last()));
    } else {
        assert(after_last(s, c) =~= s.skip(s.len() - after_last(s, c).len()));
    }
}

/// Only the part behind the last `c` matters to `after_last`.
pub proof fn lemma_after_last_at(s: Seq<char>, c: char, i: int)
    requires
        0 <= i <= s.len(),
        i == 0 || s[i - 1] == c,
        forall|j: int| i <= j < s.len() ==> #[trigger] s[j] != c,
    ensures
        after_last(s, c) == s.skip(i),
    decreases s.len(),
{
    if i < s.len() {
        assert(s[s.len() - 1] != c);
        lemma_after_last_at(s.drop_last(), c, i);
        assert(s.drop_last().skip(i).push(s.last()) =~= s.skip(i));
    } else {
        assert(s.skip(i) =~= Seq::empty());
    }
}

/// `words` of a text that does not end with white space ends with a word.
proof fn lemma_words_nonempty(s: Seq<char>)
    requires
        s.len() > 0,
        !white_space(s.last()),
    ensures
        words(s).len() > 0,
    decreases s.len(),
{
}

/// A word is not empty and holds no white space.
pub proof fn law_words(s: Seq<char>, k: int)
    requires
        0 <= k < words(s).len(),
    ensures
        words(s)[k].len() > 0,
        forall|i: int| 0 <= i < words(s)[k].len() ==> !white_space(#[trigger] words(s)[k][i]),
    decreases s.len(),
{
    let before = words(s.drop_last());
    if k < before.len() {
        law_words(s.drop_last(), k);
    }
}

// ---------------------------------------------------------------------------------------------
// Laws
// ---------------------------------------------------------------------------------------------

/// A text contains another exactly if it is that other with something before and behind it.
pub proof fn law_contains(s: Seq<char>, p: Seq<char>)
    ensures
        contains(s, p) <==> exists|a: Seq<char>, b: Seq<char>| s == #[trigger] (a + p + b),
{
    if contains(s, p) {
        let i = choose|i: int| #[trigger] occurs_at(s, p, i);
        let a = s.take(i);
        let b = s.skip(i + p.len());
        assert(s =~= a + s.subrange(i, i + p.len()) + b);
        assert(s == a + p + b);
    }
    if exists|a: Seq<char>, b: Seq<char>| s == #[trigger] (a + p + b) {
        let (a, b) = choose|a: Seq<char>, b: Seq<char>| s == #[trigger] (a + p + b);
        let i = a.len() as int;
        assert(s.subrange(i, i + p.len()) =~= p);
        assert(occurs_at(s, p, i));
    }
}

/// A text stands where what follows a part of that length starts with it.
pub proof fn law_occurs_at(a: Seq<char>, p: Seq<char>, b: Seq<char>)
    ensures
        occurs_at(a + p + b, p, a.len() as int),
        forall|i: int|
            #![trigger occurs_at(a, p, i)]
            occurs_at(a, p, i) ==> 0 <= i && i + p.len() <= a.len() && forall|k: int|
                0 <= k < p.len() ==> a[i + k] == #[trigger] p[k],
{
    let i = a.len() as int;
    assert((a + p + b).subrange(i, i + p.len()) =~= p);
    assert forall|i: int| #![trigger occurs_at(a, p, i)] occurs_at(a, p, i) implies 0 <= i && i
        + p.len() <= a.len() && forall|k: int|
        0 <= k < p.len() ==> a[i + k] == #[trigger] p[k] by {
        assert forall|k: int| 0 <= k < p.len() implies a[i + k] == #[trigger] p[k] by {
            assert(a.subrange(i, i + p.len())[k] == a[i + k]);
        }
    }
}

/// What stands before the first `c` holds no `c`, and `c` follows it unless it is all.
pub proof fn law_before_first(a: Seq<char>, c: char, b: Seq<char>)
    requires
        !a.contains(c),
    ensures
        before_first(a, c) == a,
        before_first(a + seq![c] + b, c) == a,
{
    let s = a + seq![c] + b;
    lemma_index_of(a, c, 0);
    lemma_index_of(s, c, 0);
    let i = index_of(a, c, 0);
    if i < a.len() {
        assert(a.contains(a[i]));
    }
    let j = index_of(s, c, 0);
    assert(s[a.len() as int] == c);
    if j < a.len() {
        assert(s[j] == a[j]);
        assert(a.contains(a[j]));
    }
    assert(a.take(a.len() as int) =~= a);
    assert(s.take(a.len() as int) =~= a);
}

/// What stands after the last `c` holds no `c`, and a `c` stands before it unless it is all.
pub proof fn law_after_last(a: Seq<char>, c: char, b: Seq<char>)
    requires
        !b.contains(c),
    ensures
        after_last(b, c) == b,
        after_last(a + seq![c] + b, c) == b,
{
    let s = a + seq![c] + b;
    let i = a.len() + 1;
    assert forall|j: int| 0 <= j < b.len() implies #[trigger] b[j] != c by {
        assert(b.contains(b[j]));
    }
    lemma_after_last_at(b, c, 0);
    assert(b.skip(0) =~= b);
    assert forall|j: int| i <= j < s.len() implies #[trigger] s[j] != c by {
        assert(s[j] == b[j - i]);
    }
    assert(s[i - 1] == c);
    lemma_after_last_at(s, c, i as int);
    assert(s.skip(i as int) =~= b);
}

/// The second field is what stands between the first `c` and the next one, or the end.
pub proof fn law_second_field(a: Seq<char>, c: char, b: Seq<char>, rest: Seq<char>)
    requires
        !a.contains(c),
        !b.contains(c),
    ensures
        second_field(a, c) is None,
        second_field(a + seq![c] + b, c) == Some(b),
        second_field(a + seq![c] + b + seq![c] + rest, c) == Some(b),
{
    let n = a.len() as int;
    lemma_index_of(a, c, 0);
    if index_of(a, c, 0) < a.len() {
        assert(a.contains(a[index_of(a, c, 0)]));
    }
    let s = a + seq![c] + b;
    lemma_index_of(s, c, 0);
    assert(s[n] == c);
    let i = index_of(s, c, 0);
    if i < n {
        assert(a.contains(s[i]));
    }
    lemma_index_of(s, c, n + 1);
    let j = index_of(s, c, n + 1);
    if j < s.len() {
        assert(b[j - n - 1] == c);
        assert(b.contains(c));
    }
    assert(s.subrange(n + 1, s.len() as int) =~= b);
    let t = a + seq![c] + b + seq![c] + rest;
    let m = n + 1 + b.len();
    lemma_index_of(t, c, 0);
    assert(t[n] == c && t[m] == c);
    let k = index_of(t, c, 0);
    if k < n {
        assert(a.contains(t[k]));
    }
    lemma_index_of(t, c, n + 1);
    let l = index_of(t, c, n + 1);
    if l < m {
        assert(b[l - n - 1] == c);
        assert(b.contains(c));
    }
    assert(t.subrange(n + 1, m) =~= b);
}

/// White space separates words: what stands on either side of it is split on its own.
pub proof fn law_words_are_separated(a: Seq<char>, c: char, b: Seq<char>)
    requires
        white_space(c),
    ensures
        words(a + seq![c] + b) == words(a) + words(b),
    decreases b.len(),
{
    let s = a + seq![c] + b;
    if b.len() == 0 {
        assert(s.drop_last() =~= a);
        assert(words(b) =~= Seq::empty());
        assert(words(s) =~= words(a) + words(b));
    } else {
        law_words_are_separated(a, c, b.drop_last());
        assert(s.drop_last() =~= a + seq![c] + b.drop_last());
        assert(s.last() == b.last());
        let before = words(b.drop_last());
        if white_space(b.last()) {
        } else if b.len() >= 2 && !white_space(b[b.len() - 2]) {
            assert(s[s.len() - 2] == b[b.len() - 2]);
            lemma_words_nonempty(b.drop_last());
            let all = words(a) + before;
            assert(all.last() == before.last());
            assert(all.drop_last().push(all.last().push(b.last())) =~= words(a)
                + before.drop_last().push(before.last().push(b.last())));
        } else {
            assert(b.len() >= 2 ==> s[s.len() - 2] == b[b.len() - 2]);
            assert(b.len() == 1 ==> s[s.len() - 2] == c);
            assert((words(a) + before).push(seq![b.last()]) =~= words(a) + before.push(
                seq![b.last()],
            ));
        }
    }
}

/// A text without white space is one word, and nothing is no word.
pub proof fn law_single_word(s: Seq<char>)
    requires
        forall|i: int| 0 <= i < s.len() ==> !white_space(#[trigger] s[i]),
    ensures
        s.len() > 0 ==> words(s) == seq![s],
        s.len() == 0 ==> words(s) == Seq::<Seq<char>>::empty(),
    decreases s.len(),
{
    if s.len() > 0 {
        let t = s.drop_last();
        assert forall|i: int| 0 <= i < t.len() implies !white_space(#[trigger] t[i]) by {
            assert(t[i] == s[i]);
        }
        law_single_word(t);
        assert(!white_space(s[s.len() - 1]));
        if s.len() >= 2 {
            assert(!white_space(s[s.len() - 2]));
            assert(seq![t].drop_last().push(seq![t].last().push(s.last())) =~= seq![s]) by {
                assert(t.push(s.last()) =~= s);
            }
        } else {
            assert(words(t) =~= Seq::<Seq<char>>::empty());
            assert(seq![s.last()] =~= s);
            assert(words(s) =~= seq![s]);
        }
    }
}

/// Trimming takes white space from both ends, and nothing else.
pub proof fn law_trim(s: Seq<char>)
    ensures
        exists|a: Seq<char>, b: Seq<char>|
            s == #[trigger] (a + trim(s) + b) && all_white(a) && all_white(b),
        trim(s).len() > 0 ==> !white_space(trim(s)[0]) && !white_space(trim(s).last()),
{
    let (a, t) = lemma_trim_start(s);
    let b = lemma_trim_end(t);
    assert(s =~= a + trim(s) + b);
    if trim(s).len() > 0 {
        assert(trim(s)[0] == t[0]);
    }
}

/// `s` is white space throughout.
pub open spec fn all_white(s: Seq<char>) -> bool {
    forall|i: int| 0 <= i < s.len() ==> white_space(#[trigger] s[i])
}

/// What `trim_start` takes and leaves.
proof fn lemma_trim_start(s: Seq<char>) -> (r: (Seq<char>, Seq<char>))
    ensures
        r.1 == trim_start(s),
        s == r.0 + r.1,
        all_white(r.0),
        r.1.len() > 0 ==> !white_space(r.1[0]),
    decreases s.len(),
{
    if s.len() > 0 && white_space(s[0]) {
        let (a, t) = lemma_trim_start(s.drop_first());
        let whole = seq![s[0]] + a;
        assert forall|i: int| 0 <= i < whole.len() implies white_space(#[trigger] whole[i]) by {
            if i > 0 {
                assert(whole[i] == a[i - 1]);
            }
        }
        assert(s =~= seq![s[0]] + s.drop_first());
        assert(seq![s[0]] + (a + t) =~= whole + t);
        (whole, t)
    } else {
        assert(s =~= Seq::<char>::empty() + s);
        (Seq::empty(), s)
    }
}

/// What `trim_end` takes.
proof fn lemma_trim_end(s: Seq<char>) -> (b: Seq<char>)
    ensures
        s == trim_end(s) + b,
        all_white(b),
        trim_end(s).len() > 0 ==> !white_space(trim_end(s).last()),
    decreases s.len(),
{
    if s.len() > 0 && white_space(s.last()) {
        let b = lemma_trim_end(s.drop_last());
        let whole = b.push(s.last());
        assert forall|i: int| 0 <= i < whole.len() implies white_space(#[trigger] whole[i]) by {
            if i < b.len() {
                assert(whole[i] == b[i]);
            }
        }
        assert(s =~= s.drop_last().push(s.last()));
        assert((trim_end(s) + b).push(s.last()) =~= trim_end(s) + whole);
        whole
    } else {
        assert(s =~= s + Seq::<char>::empty());
        Seq::empty()
    }
}

/// `index_of` looks only at what follows.
proof fn lemma_index_of_shift(a: Seq<char>, b: Seq<char>, c: char, from: int)
    requires
        0 <= from <= b.len(),
    ensures
        index_of(a + b, c, a.len() + from) == a.len() + index_of(b, c, from),
    decreases b.len() - from,
{
    if from < b.len() {
        assert((a + b)[a.len() + from] == b[from]);
        if b[from] != c {
            lemma_index_of_shift(a, b, c, from + 1);
        }
    }
}

/// `lines` looks only at what follows.
proof fn lemma_lines_shift(a: Seq<char>, b: Seq<char>, from: int)
    requires
        0 <= from <= b.len(),
    ensures
        lines(a + b, a.len() + from) == lines(b, from),
    decreases b.len() - from,
{
    if from < b.len() {
        let s = a + b;
        let n = a.len() as int;
        lemma_index_of_shift(a, b, '\n', from);
        lemma_index_of(b, '\n', from);
        let end = index_of(b, '\n', from);
        assert(s.subrange(n + from, n + end) =~= b.subrange(from, end));
        if end < b.len() {
            lemma_lines_shift(a, b, end + 1);
        }
    }
}

/// A line ends at the first line feed: it is what stands before it, less one carriage return, and
/// the lines of the rest follow. What has no line feed is one line, unless it is nothing.
pub proof fn law_lines(a: Seq<char>, b: Seq<char>)
    requires
        !a.contains('\n'),
    ensures
        lines(a, 0) == (if a.len() > 0 {
            seq![a]
        } else {
            Seq::empty()
        }),
        lines(a + seq!['\n'] + b, 0) == seq![
            if a.len() > 0 && a.last() == '\r' {
                a.drop_last()
            } else {
                a
            },
        ] + lines(b, 0),
{
    let head = a + seq!['\n'];
    let s = head + b;
    let n = a.len() as int;
    lemma_index_of(a, '\n', 0);
    let i = index_of(a, '\n', 0);
    if i < n {
        assert(a.contains(a[i]));
    }
    assert(a.subrange(0, n) =~= a);
    lemma_index_of(s, '\n', 0);
    assert(s[n] == '\n');
    let j = index_of(s, '\n', 0);
    if j < n {
        assert(a.contains(s[j]));
    }
    assert(s.subrange(0, n) =~= a);
    lemma_lines_shift(head, b, 0);
}

/// White space is a space of any width, or what ends a line or a page.
pub proof fn law_white_space(c: char)
    ensures
        white_space(c) <==> {
            ||| '\t' <= c <= '\r'
            ||| c == ' '
            ||| c == '\u{85}'
            ||| c == '\u{a0}'
            ||| c == '\u{1680}'
            ||| '\u{2000}' <= c <= '\u{200a}'
            ||| c == '\u{2028}'
            ||| c == '\u{2029}'
            ||| c == '\u{202f}'
            ||| c == '\u{205f}'
            ||| c == '\u{3000}'
        },
{
}

/// The digits are the characters from `0` to `9`.
pub proof fn lemma_digit_range(c: char)
    ensures
        is_digit(c) <==> '0' <= c <= '9',
{
}

/// A number is written with decimal digits that stand for it, without a needless zero in front.
pub proof fn law_decimal(n: nat)
    ensures
        decimal(n).len() > 0,
        forall|i: int| 0 <= i < decimal(n).len() ==> '0' <= #[trigger] decimal(n)[i] <= '9',
        decimal(n).len() > 1 ==> decimal(n)[0] != '0',
        digits_value(decimal(n)) == n,
    decreases n,
{
    lemma_decimal_digits(n);
    lemma_decimal_value(n);
    assert forall|i: int| 0 <= i < decimal(n).len() implies '0' <= #[trigger] decimal(n)[i]
        <= '9' by {
        assert(is_digit(decimal(n)[i]));
        lemma_digit_range(decimal(n)[i]);
    }
    if n >= 10 {
        law_decimal(n / 10);
        assert(decimal(n)[0] == decimal(n / 10)[0]);
        if n < 100 {
            assert(decimal(n / 10) =~= seq![digit(n / 10)]);
            assert(digit(n / 10) as u32 > 0x30);
        } else {
            lemma_decimal_digits((n / 10) / 10);
            assert(decimal(n / 10).len() > 1);
        }
    }
}

/// Another digit behind a number makes it ten times as large, and adds its own value.
pub proof fn law_digits_value(s: Seq<char>, d: nat)
    requires
        d < 10,
    ensures
        digits_value(Seq::empty()) == 0,
        digits_value(s.push((0x30 + d) as char)) == 10 * digits_value(s) + d,
{
    let t = s.push((0x30 + d) as char);
    assert(t.drop_last() =~= s);
}

/// A text stands for a number exactly if it is one or more decimal digits, with or without a `+`
/// before them.
pub proof fn law_unsigned_value(s: Seq<char>)
    requires
        s.len() == 0 || s[0] != '+',
    ensures
        unsigned_value(s) is Some <==> s.len() > 0 && forall|i: int|
            0 <= i < s.len() ==> '0' <= #[trigger] s[i] <= '9',
        unsigned_value(s) matches Some(v) ==> v == digits_value(s),
        unsigned_value(seq!['+'] + s) == unsigned_value(s),
        unsigned_value(seq!['+'] + (seq!['+'] + s)) is None,
{
    assert((seq!['+'] + s).drop_first() =~= s);
    let twice = seq!['+'] + (seq!['+'] + s);
    assert(twice.drop_first() =~= seq!['+'] + s);
    assert(!is_digit((seq!['+'] + s)[0]));
    if s.len() > 0 && forall|i: int| 0 <= i < s.len() ==> '0' <= #[trigger] s[i] <= '9' {
        assert forall|i: int| 0 <= i < s.len() implies is_digit(#[trigger] s[i]) by {
            lemma_digit_range(s[i]);
        }
    }
    if all_digits(s) {
        assert forall|i: int| 0 <= i < s.len() implies '0' <= #[trigger] s[i] <= '9' by {
            assert(is_digit(s[i]));
            lemma_digit_range(s[i]);
        }
    }
}

/// Case mapping changes the 26 letters of one case to those of the other, and nothing else.
pub proof fn law_ascii_case(s: Seq<char>, i: int)
    requires
        0 <= i < s.len(),
    ensures
        ascii_uppercase(s).len() == s.len(),
        ascii_lowercase(s).len() == s.len(),
        'a' <= s[i] <= 'z' ==> ascii_uppercase(s)[i] as u32 + 32 == s[i] as u32,
        !('a' <= s[i] <= 'z') ==> ascii_uppercase(s)[i] == s[i],
        'A' <= s[i] <= 'Z' ==> ascii_lowercase(s)[i] as u32 == s[i] as u32 + 32,
        !('A' <= s[i] <= 'Z') ==> ascii_lowercase(s)[i] == s[i],
{
    lemma_ascii_case(s[i]);
}

/// The case of one character.
proof fn lemma_ascii_case(c: char)
    ensures
        'a' <= c <= 'z' ==> ascii_upper(c) as u32 + 32 == c as u32,
        'A' <= c <= 'Z' ==> ascii_lower(c) as u32 == c as u32 + 32,
{
}

// ---------------------------------------------------------------------------------------------
// Characters and strings
// ---------------------------------------------------------------------------------------------

/// `String::push` appends one character.
pub assume_specification[ String::push ](s: &mut String, c: char)
    ensures
        final(s)@ == old(s)@.push(c),
;

/// The characters of `s`.
pub fn chars_of(s: &str) -> (r: Vec<char>)
    ensures
        r@ == s@,
{
    let mut r: Vec<char> = Vec::new();
    for c in it: s.chars()
        invariant
            it.seq() == s@,
            r@ == s@.take(it.index() as int),
    {
        r.push(c);
    }
    r
}

/// The string that the characters from `from` up to `to` make.
pub fn text_of(chars: &Vec<char>, from: usize, to: usize) -> (r: String)
    requires
        from <= to <= chars.len(),
    ensures
        r@ == chars@.subrange(from as int, to as int),
{
    let mut r = String::new();
    let mut i: usize = from;
    while i < to
        invariant
            from <= i <= to <= chars.len(),
            r@ == chars@.subrange(from as int, i as int),
        decreases to - i,
    {
        r.push(chars[i]);
        i += 1;
    }
    r
}

/// Whether two pieces of text are the same.
pub fn same(a: &str, b: &str) -> (r: bool)
    ensures
        r == (a@ == b@),
{
    let x = a.as_bytes();
    let y = b.as_bytes();
    proof {
        encode_utf8_decode_utf8(a@);
        encode_utf8_decode_utf8(b@);
    }
    if x.len() != y.len() {
        return false;
    }
    let mut i: usize = 0;
    while i < x.len()
        invariant
            i <= x.len() == y.len(),
            x@ == encode_utf8(a@),
            y@ == encode_utf8(b@),
            forall|j: int| 0 <= j < i ==> x@[j] == y@[j],
        decreases x.len() - i,
    {
        if x[i] != y[i] {
            return false;
        }
        i += 1;
    }
    assert(x@ =~= y@);
    true
}

/// Whether `s` holds nothing.
pub fn is_empty(s: &str) -> (r: bool)
    ensures
        r == (s@.len() == 0),
{
    chars_of(s).len() == 0
}

/// What `String::from_utf8_lossy` makes of bytes.
pub uninterp spec fn lossy_text(bytes: Seq<u8>) -> Seq<char>;

/// `String::from_utf8_lossy`: the text that the bytes encode, with a replacement character for
/// what is not UTF-8.
#[verifier::external_body]
pub(crate) fn decode_lossy(bytes: &[u8]) -> (r: String)
    ensures
        r@ == lossy_text(bytes@),
        valid_utf8(bytes@) ==> r@ == decode_utf8(bytes@),
{
    String::from_utf8_lossy(bytes).into_owned()
}

// ---------------------------------------------------------------------------------------------
// Upper and lower case
// ---------------------------------------------------------------------------------------------

/// What `str::to_uppercase` makes of `s`.
pub uninterp spec fn uppercased(s: Seq<char>) -> Seq<char>;

/// `str::to_uppercase`: the upper case equivalent of `s` by the rules of Unicode, which map the
/// characters of ASCII among themselves.
#[verifier::external_body]
pub(crate) fn to_uppercase(s: &str) -> (r: String)
    ensures
        r@ == uppercased(s@),
        is_ascii_chars(s@) ==> r@ == ascii_uppercase(s@),
{
    s.to_uppercase()
}

/// What `str::to_lowercase` makes of `s`.
pub uninterp spec fn lowercased(s: Seq<char>) -> Seq<char>;

/// `str::to_lowercase`: the lower case equivalent of `s` by the rules of Unicode, which map the
/// characters of ASCII among themselves.
#[verifier::external_body]
pub(crate) fn to_lowercase(s: &str) -> (r: String)
    ensures
        r@ == lowercased(s@),
        is_ascii_chars(s@) ==> r@ == ascii_lowercase(s@),
{
    s.to_lowercase()
}

// ---------------------------------------------------------------------------------------------
// Searching
// ---------------------------------------------------------------------------------------------

/// Whether `p` stands in `s` at position `i`.
fn occurs(s: &Vec<char>, p: &Vec<char>, i: usize) -> (r: bool)
    requires
        i + p.len() <= s.len(),
    ensures
        r == occurs_at(s@, p@, i as int),
{
    let mut k: usize = 0;
    while k < p.len()
        invariant
            k <= p.len(),
            i + p.len() <= s.len(),
            s@.subrange(i as int, i + k) == p@.take(k as int),
        decreases p.len() - k,
    {
        if s[i + k] != p[k] {
            assert(s@.subrange(i as int, i + p@.len())[k as int] != p@[k as int]);
            return false;
        }
        assert(s@.subrange(i as int, i + k + 1) =~= s@.subrange(i as int, i + k).push(
            s@[i + k],
        ));
        k += 1;
    }
    assert(p@.take(p@.len() as int) =~= p@);
    true
}

/// The first position at or after `from` at which `p` stands in `s`.
pub fn find_from(s: &Vec<char>, p: &Vec<char>, from: usize) -> (r: Option<usize>)
    ensures
        match r {
            Some(i) => find(s@, p@, from as int) == Some(i as int),
            None => find(s@, p@, from as int) is None,
        },
{
    let mut i: usize = from;
    while i <= s.len() && p.len() <= s.len() - i
        invariant
            from <= i <= s.len() || i == from,
            find(s@, p@, from as int) == find(s@, p@, i as int),
        decreases s.len() + 1 - i,
    {
        if occurs(s, p, i) {
            return Some(i);
        }
        if i == s.len() {
            assert(s@.subrange(i as int, i as int) =~= p@);
            return None;
        }
        i += 1;
    }
    None
}

/// Whether `p` stands somewhere in `s`.
pub fn has(s: &str, p: &str) -> (r: bool)
    ensures
        r == contains(s@, p@),
{
    let sv = chars_of(s);
    let pv = chars_of(p);
    proof {
        lemma_find_contains(s@, p@);
    }
    find_from(&sv, &pv, 0).is_some()
}

/// Whether `s` starts with `p`.
pub fn starts_with(s: &str, p: &str) -> (r: bool)
    ensures
        r == p@.is_prefix_of(s@),
{
    let sv = chars_of(s);
    let pv = chars_of(p);
    pv.len() <= sv.len() && occurs(&sv, &pv, 0)
}

/// Whether `s` ends with `p`.
pub fn ends_with(s: &str, p: &str) -> (r: bool)
    ensures
        r == p@.is_suffix_of(s@),
{
    let sv = chars_of(s);
    let pv = chars_of(p);
    if pv.len() > sv.len() {
        return false;
    }
    occurs(&sv, &pv, sv.len() - pv.len())
}

/// What follows `p` in `s`, if `s` starts with `p`.
pub fn strip_prefix(s: &str, p: &str) -> (r: Option<String>)
    ensures
        match r {
            Some(rest) => p@.is_prefix_of(s@) && rest@ == s@.skip(p@.len() as int),
            None => !p@.is_prefix_of(s@),
        },
{
    let sv = chars_of(s);
    let pv = chars_of(p);
    if pv.len() <= sv.len() && occurs(&sv, &pv, 0) {
        Some(text_of(&sv, pv.len(), sv.len()))
    } else {
        None
    }
}

/// The first position at or after `from` that holds `c`, or the length of `s` if none does.
pub fn index_from(s: &Vec<char>, c: char, from: usize) -> (r: usize)
    requires
        from <= s.len(),
    ensures
        r == index_of(s@, c, from as int),
        from <= r <= s.len(),
{
    let mut i: usize = from;
    while i < s.len()
        invariant
            from <= i <= s.len(),
            index_of(s@, c, from as int) == index_of(s@, c, i as int),
        decreases s.len() - i,
    {
        if s[i] == c {
            return i;
        }
        i += 1;
    }
    i
}

// ---------------------------------------------------------------------------------------------
// Splitting
// ---------------------------------------------------------------------------------------------

/// What stands before the first `c` of `s`.
pub fn head(s: &str, c: char) -> (r: String)
    ensures
        r@ == before_first(s@, c),
{
    let sv = chars_of(s);
    let end = index_from(&sv, c, 0);
    text_of(&sv, 0, end)
}

/// What stands after the last `c` of `s`.
pub fn tail(s: &str, c: char) -> (r: String)
    ensures
        r@ == after_last(s@, c),
{
    let sv = chars_of(s);
    let mut i: usize = sv.len();
    while i > 0 && sv[i - 1] != c
        invariant
            i <= sv.len(),
            forall|j: int| i <= j < sv.len() ==> #[trigger] sv@[j] != c,
        decreases i,
    {
        i -= 1;
    }
    proof {
        lemma_after_last_at(s@, c, i as int);
    }
    text_of(&sv, i, sv.len())
}

/// What stands between the first `c` of `s` and the next one.
pub fn field_after(s: &str, c: char) -> (r: Option<String>)
    ensures
        match r {
            Some(field) => second_field(s@, c) == Some(field@),
            None => second_field(s@, c) is None,
        },
{
    let sv = chars_of(s);
    let i = index_from(&sv, c, 0);
    if i < sv.len() {
        let end = index_from(&sv, c, i + 1);
        Some(text_of(&sv, i + 1, end))
    } else {
        None
    }
}

/// Whether `c` is white space.
pub fn is_white_space(c: char) -> (r: bool)
    ensures
        r == white_space(c),
{
    let u = c as u32;
    (0x9 <= u && u <= 0xd) || u == 0x20 || u == 0x85 || u == 0xa0 || u == 0x1680 || (0x2000 <= u
        && u <= 0x200a) || u == 0x2028 || u == 0x2029 || u == 0x202f || u == 0x205f || u == 0x3000
}

/// The words of `s`.
pub fn split_words(s: &str) -> (r: Vec<String>)
    ensures
        texts(r@) == words(s@),
{
    let sv = chars_of(s);
    let mut r: Vec<String> = Vec::new();
    let mut i: usize = 0;
    assert(s@.take(0) =~= Seq::empty());
    assert(texts(r@) =~= words(s@.take(0)));
    while i < sv.len()
        invariant
            sv@ == s@,
            i <= sv.len(),
            texts(r@) == words(s@.take(i as int)),
        decreases sv.len() - i,
    {
        let c = sv[i];
        let ghost done = s@.take(i as int);
        let ghost next = s@.take(i + 1);
        assert(next.drop_last() =~= done);
        assert(next.last() == c);
        if !is_white_space(c) {
            if i > 0 && !is_white_space(sv[i - 1]) {
                proof {
                    assert(done.last() == sv@[i - 1]);
                    lemma_words_nonempty(done);
                    assert(r@.len() == texts(r@).len());
                }
                let ghost before = r@;
                let mut word = match r.pop() {
                    Some(w) => w,
                    None => String::new(),
                };
                word.push(c);
                r.push(word);
                assert(before.len() > 0);
                assert(next[next.len() - 2] == sv@[i - 1]);
                assert(texts(r@) =~= words(done).drop_last().push(words(done).last().push(c)));
            } else {
                let mut word = String::new();
                word.push(c);
                r.push(word);
                assert(word@ =~= seq![c]);
                assert(next.len() >= 2 ==> next[next.len() - 2] == sv@[i - 1]);
                assert(texts(r@) =~= words(done).push(seq![c]));
            }
        }
        i += 1;
    }
    assert(s@.take(sv@.len() as int) =~= s@);
    r
}

/// `s` without white space at either end.
pub fn trimmed(s: &str) -> (r: String)
    ensures
        r@ == trim(s@),
{
    let sv = chars_of(s);
    let mut a: usize = 0;
    assert(s@.skip(0) =~= s@);
    while a < sv.len() && is_white_space(sv[a])
        invariant
            sv@ == s@,
            a <= sv.len(),
            trim_start(s@) == trim_start(s@.skip(a as int)),
        decreases sv.len() - a,
    {
        assert(s@.skip(a as int).drop_first() =~= s@.skip(a + 1));
        a += 1;
    }
    let mut b: usize = sv.len();
    assert(s@.subrange(a as int, b as int) =~= s@.skip(a as int));
    while b > a && is_white_space(sv[b - 1])
        invariant
            sv@ == s@,
            a <= b <= sv.len(),
            trim_end(s@.skip(a as int)) == trim_end(s@.subrange(a as int, b as int)),
        decreases b,
    {
        assert(s@.subrange(a as int, b as int).drop_last() =~= s@.subrange(a as int, b - 1));
        assert(s@.subrange(a as int, b as int).last() == s@[b - 1]);
        b -= 1;
    }
    text_of(&sv, a, b)
}

/// The lines of `s`.
pub fn split_lines(s: &str) -> (r: Vec<String>)
    ensures
        texts(r@) == lines(s@, 0),
{
    let sv = chars_of(s);
    let mut r: Vec<String> = Vec::new();
    let mut i: usize = 0;
    assert(texts(r@) + lines(s@, 0) =~= lines(s@, 0));
    while i < sv.len()
        invariant
            sv@ == s@,
            i <= sv.len(),
            texts(r@) + lines(s@, i as int) == lines(s@, 0),
        decreases sv.len() - i,
    {
        let end = index_from(&sv, '\n', i);
        let ghost before = texts(r@);
        if end < sv.len() {
            let stop = if end > i && sv[end - 1] == '\r' { end - 1 } else { end };
            let line = text_of(&sv, i, stop);
            assert(line@ =~= without_return(s@.subrange(i as int, end as int)));
            r.push(line);
            assert(texts(r@) =~= before.push(line@));
            assert(texts(r@) + lines(s@, end + 1) =~= before + (seq![line@] + lines(s@, end + 1)));
            i = end + 1;
        } else {
            let line = text_of(&sv, i, end);
            r.push(line);
            assert(texts(r@) =~= before.push(line@));
            assert(texts(r@) + lines(s@, end as int) =~= before + seq![line@]);
            i = end;
        }
    }
    assert(texts(r@) + lines(s@, i as int) =~= texts(r@));
    r
}

// ---------------------------------------------------------------------------------------------
// Numbers
// ---------------------------------------------------------------------------------------------

/// A digit is the digit that stands for its value.
pub proof fn lemma_digit_char(c: char)
    requires
        is_digit(c),
    ensures
        digit((c as u32 - 0x30) as nat) == c,
        c as u32 == 0x30 <==> c == '0',
{
}

/// A number in decimal notation holds digits only.
pub proof fn lemma_decimal_digits(n: nat)
    ensures
        decimal(n).len() > 0,
        all_digits(decimal(n)),
    decreases n,
{
    if n >= 10 {
        lemma_decimal_digits(n / 10);
    }
}

/// The digits of a number in decimal notation stand for that number.
pub proof fn lemma_decimal_value(n: nat)
    ensures
        digits_value(decimal(n)) == n,
    decreases n,
{
    if n >= 10 {
        lemma_decimal_value(n / 10);
        assert(decimal(n).drop_last() =~= decimal(n / 10));
    } else {
        assert(decimal(n).drop_last() =~= Seq::empty());
        assert(digits_value(Seq::empty()) == 0);
    }
}

/// `n` in decimal notation.
pub fn decimal_text(n: u64) -> (r: String)
    ensures
        r@ == decimal(n as nat),
    decreases n,
{
    let mut r = if n < 10 { String::new() } else { decimal_text(n / 10) };
    let d = (n % 10) as u8;
    r.push((0x30u8 + d) as char);
    assert(r@.last() == digit((n % 10) as nat));
    assert(n < 10 ==> r@ =~= seq![digit(n as nat)]);
    r
}

/// More leading digits make a number no smaller.
proof fn lemma_digits_value_prefix(s: Seq<char>, n: int)
    requires
        0 <= n <= s.len(),
        all_digits(s),
    ensures
        digits_value(s.take(n)) <= digits_value(s),
    decreases s.len() - n,
{
    if n < s.len() {
        let t = s.take(n + 1);
        assert(t.drop_last() =~= s.take(n));
        assert(is_digit(s[n]));
        lemma_digits_value_prefix(s, n + 1);
    } else {
        assert(s.take(n) =~= s);
    }
}

/// The number that `s` stands for, if it is one and fits 32 bits.
pub fn parse_u32(s: &str) -> (r: Option<u32>)
    ensures
        match r {
            Some(v) => unsigned_value(s@) == Some(v as nat),
            None => unsigned_value(s@) is None || unsigned_value(s@)->0 > u32::MAX,
        },
{
    let sv = chars_of(s);
    let start: usize = if sv.len() > 0 && sv[0] == '+' { 1 } else { 0 };
    let ghost digits = s@.skip(start as int);
    assert(start == 1 ==> digits =~= s@.drop_first());
    assert(start == 0 ==> digits =~= s@);
    if start == sv.len() {
        return None;
    }
    let mut value: u64 = 0;
    let mut i: usize = start;
    assert(digits.take(0) =~= Seq::empty());
    while i < sv.len()
        invariant
            start <= i <= sv.len(),
            start <= 1,
            sv@ == s@,
            digits == s@.skip(start as int),
            unsigned_value(s@) == (if digits.len() > 0 && all_digits(digits) {
                Some(digits_value(digits))
            } else {
                None
            }),
            all_digits(digits.take(i - start)),
            value == digits_value(digits.take(i - start)),
            value <= u32::MAX,
        decreases sv.len() - i,
    {
        let u = sv[i] as u32;
        let ghost n = i - start;
        let ghost next = digits.take(n + 1);
        assert(next.drop_last() =~= digits.take(n));
        assert(digits[n] == sv@[i as int]);
        if u < 0x30 || u > 0x39 {
            assert(!is_digit(digits[n]));
            return None;
        }
        assert forall|j: int| 0 <= j < next.len() implies is_digit(#[trigger] next[j]) by {
            if j < n {
                assert(next[j] == digits.take(n)[j]);
            }
        }
        value = value * 10 + (u - 0x30) as u64;
        assert(value == digits_value(next));
        if value > u32::MAX as u64 {
            proof {
                if all_digits(digits) {
                    lemma_digits_value_prefix(digits, n + 1);
                }
            }
            return None;
        }
        i += 1;
    }
    assert(digits.take(digits.len() as int) =~= digits);
    Some(value as u32)
}

/// The text of the error that `str::parse::<u8>` fails with.
pub uninterp spec fn parse_u8_error(s: Seq<char>) -> Seq<char>;

/// `str::parse::<u8>`: reads an optional `+` followed by decimal digits, and fails, with a text
/// that depends on `s` alone, on anything else or on a number over 255.
#[verifier::external_body]
pub(crate) fn parse_u8(s: &str) -> (r: Result<u8, String>)
    ensures
        match r {
            Ok(v) => unsigned_value(s@) == Some(v as nat),
            Err(e) => (unsigned_value(s@) is None || unsigned_value(s@)->0 > u8::MAX) && e@
                == parse_u8_error(s@),
        },
{
    match s.parse::<u8>() {
        Ok(v) => Ok(v),
        Err(e) => Err(e.to_string()),
    }
}

} // verus!
