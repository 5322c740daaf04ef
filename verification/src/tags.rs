//! Text between tags.

use crate::text;
use vstd::prelude::*;

verus! {

/// `s` holds no bracket of a tag.
pub open spec fn no_brackets(s: Seq<char>) -> bool {
    !s.contains('<') && !s.contains('>')
}

/// Somewhere in `s` there is nothing but `p` between two tags.
pub open spec fn between_tags(s: Seq<char>, p: Seq<char>) -> bool {
    text::contains(s, seq!['>'] + p + seq!['<'])
}

/// A line break and `steps` steps of indentation, four spaces each.
pub open spec fn is_indent(s: Seq<char>, steps: nat) -> bool {
    &&& s.len() == 1 + 4 * steps
    &&& s[0] == '\n'
    &&& forall|i: int| 0 < i < s.len() ==> #[trigger] s[i] == ' '
}

/// A tag of `s` ends at `i`, and nothing but `p` stands between it and the next one.
pub open spec fn gap_at(s: Seq<char>, p: Seq<char>, i: int) -> bool {
    &&& 0 <= i
    &&& i + p.len() + 1 < s.len()
    &&& s[i] == '>'
    &&& s[i + p.len() + 1] == '<'
    &&& s.subrange(i + 1, i + 1 + p.len()) == p
}

/// Text stands between two tags exactly if it fills a gap between them.
pub proof fn lemma_gap(s: Seq<char>, p: Seq<char>)
    ensures
        between_tags(s, p) <==> exists|i: int| gap_at(s, p, i),
{
    let framed = seq!['>'] + p + seq!['<'];
    assert forall|i: int| text::occurs_at(s, framed, i) implies gap_at(s, p, i) by {
        let found = s.subrange(i, i + framed.len());
        assert(found[0] == s[i]);
        assert(found[p.len() as int + 1] == s[i + p.len() + 1]);
        assert(s.subrange(i + 1, i + 1 + p.len()) =~= found.subrange(1, 1 + p.len() as int));
        assert(framed.subrange(1, 1 + p.len() as int) =~= p);
    }
    assert forall|i: int| gap_at(s, p, i) implies text::occurs_at(s, framed, i) by {
        let filled = s.subrange(i + 1, i + 1 + p.len());
        assert forall|k: int| 0 <= k < framed.len() implies #[trigger] s.subrange(
            i,
            i + framed.len(),
        )[k] == framed[k] by {
            if 0 < k <= p.len() {
                assert(filled[k - 1] == s[i + k]);
            }
        }
        assert(s.subrange(i, i + framed.len()) =~= framed);
    }
    if between_tags(s, p) {
        let i = choose|i: int| text::occurs_at(s, framed, i);
        assert(gap_at(s, p, i));
    }
    if exists|i: int| gap_at(s, p, i) {
        let i = choose|i: int| gap_at(s, p, i);
        assert(text::occurs_at(s, framed, i));
    }
}

/// The next tag tells what fills a gap.
pub proof fn lemma_gap_filled(s: Seq<char>, p: Seq<char>, i: int, next: int)
    requires
        no_brackets(p),
        gap_at(s, p, i),
        i < next < s.len(),
        s[next] == '<',
        forall|k: int| i < k < next ==> #[trigger] s[k] != '<',
    ensures
        p == s.subrange(i + 1, next),
{
    if i + 1 + p.len() > next {
        let k = next - i - 1;
        assert(s.subrange(i + 1, i + 1 + p.len())[k] == s[next]);
        assert(p.contains(p[k]));
    }
    assert(i + 1 + p.len() == next);
}

/// What stands between two tags of a text is `v`, where `v` stands between two tags, or stands
/// between two tags before or behind it.
pub proof fn lemma_split(a: Seq<char>, v: Seq<char>, b: Seq<char>, p: Seq<char>)
    requires
        no_brackets(v),
        no_brackets(p),
        a.len() > 0,
        a.last() == '>',
        b.len() > 0,
        b[0] == '<',
    ensures
        between_tags(a + v + b, p) ==> between_tags(a, p) || p == v || between_tags(b, p),
{
    let s = a + v + b;
    let n = a.len() as int;
    let m = n + v.len();
    lemma_gap(s, p);
    lemma_gap(a, p);
    lemma_gap(b, p);
    if between_tags(s, p) {
        let i = choose|i: int| gap_at(s, p, i);
        let j = i + p.len() + 1;
        let filled = s.subrange(i + 1, j);
        assert(s[n - 1] == '>' && s[m] == '<');
        if i < n - 1 {
            if j >= n {
                assert(filled[n - 2 - i] == s[n - 1]);
                assert(p.contains('>'));
            }
            assert(a[i] == s[i] && a[j] == s[j]);
            assert(a.subrange(i + 1, i + 1 + p.len()) =~= filled);
            assert(gap_at(a, p, i));
        } else if i == n - 1 {
            assert forall|k: int| i < k < m implies #[trigger] s[k] != '<' by {
                assert(v.contains(v[k - n]));
            }
            lemma_gap_filled(s, p, i, m);
            assert(s.subrange(n, m) =~= v);
        } else if i < m {
            assert(v.contains(v[i - n]));
        } else {
            assert(b[i - m] == s[i] && b[j - m] == s[j]);
            assert(b.subrange(i - m + 1, i - m + 1 + p.len()) =~= filled);
            assert(gap_at(b, p, i - m));
        }
    }
}

/// What stands between two tags of a part stands between two tags of the whole.
pub proof fn lemma_part(a: Seq<char>, b: Seq<char>, p: Seq<char>)
    ensures
        between_tags(a, p) ==> between_tags(a + b, p),
        between_tags(b, p) ==> between_tags(a + b, p),
{
    let s = a + b;
    lemma_gap(s, p);
    lemma_gap(a, p);
    lemma_gap(b, p);
    if between_tags(a, p) {
        let i = choose|i: int| gap_at(a, p, i);
        assert(s.subrange(i + 1, i + 1 + p.len()) =~= a.subrange(i + 1, i + 1 + p.len()));
        assert(gap_at(s, p, i));
    }
    if between_tags(b, p) {
        let i = choose|i: int| gap_at(b, p, i);
        let n = a.len() as int;
        assert(s.subrange(n + i + 1, n + i + 1 + p.len()) =~= b.subrange(
            i + 1,
            i + 1 + p.len(),
        ));
        assert(gap_at(s, p, n + i));
    }
}

} // verus!
