//! Elements and their text in a row of XML events.

use crate::text;
use crate::xml::XmlEventView;
use vstd::prelude::*;

verus! {

/// The name of the element whose start tag came last before event `n`; empty if an end tag came
/// after it, or if there was none.
pub open spec fn element_at(events: Seq<XmlEventView>, n: int) -> Seq<char>
    decreases n,
{
    if n <= 0 {
        Seq::empty()
    } else {
        match events[n - 1] {
            XmlEventView::Start { name, .. } => name,
            XmlEventView::End(_) => Seq::empty(),
            _ => element_at(events, n - 1),
        }
    }
}

/// `name` without its namespace prefix is `local`.
pub open spec fn has_local_name(name: Seq<char>, local: Seq<char>) -> bool {
    text::after_last(name, ':') == local
}

/// An element has a local name if that is its name, or if its name ends with a colon and the
/// local name.
pub proof fn law_local_name(name: Seq<char>, local: Seq<char>)
    requires
        !local.contains(':'),
    ensures
        has_local_name(name, local) <==> name == local || (seq![':'] + local).is_suffix_of(name),
{
    text::lemma_after_last(name, ':');
    let tail = text::after_last(name, ':');
    let suffix = seq![':'] + local;
    if has_local_name(name, local) {
        if tail.len() < name.len() {
            assert(suffix =~= name.subrange(
                (name.len() - suffix.len()) as int,
                name.len() as int,
            ));
        } else {
            assert(name.skip(0) =~= name);
        }
    }
    if name == local {
        assert forall|j: int| 0 <= j < name.len() implies #[trigger] name[j] != ':' by {
            assert(local.contains(name[j]));
        }
        text::lemma_after_last_at(name, ':', 0);
        assert(name.skip(0) =~= name);
    }
    if suffix.is_suffix_of(name) {
        let i = name.len() - local.len();
        assert(name[i - 1] == suffix[0]);
        assert forall|j: int| i <= j < name.len() implies #[trigger] name[j] != ':' by {
            assert(name[j] == suffix[j - i + 1]);
            assert(local.contains(local[j - i]));
        }
        text::lemma_after_last_at(name, ':', i as int);
        assert forall|k: int| 0 <= k < local.len() implies #[trigger] name.skip(i as int)[k]
            == local[k] by {
            assert(name[i + k] == suffix[k + 1]);
        }
        assert(name.skip(i as int) =~= local);
    }
}

/// The last text among the first `n` events that starts with `prefix` and stands behind the start
/// tag of an element with the local name `local`.
pub open spec fn last_text(
    events: Seq<XmlEventView>,
    n: int,
    local: Seq<char>,
    prefix: Seq<char>,
) -> Option<Seq<char>>
    decreases n,
{
    if n <= 0 {
        None
    } else {
        match events[n - 1] {
            XmlEventView::Text(Ok(t)) if has_local_name(element_at(events, n - 1), local)
                && prefix.is_prefix_of(t) => Some(t),
            _ => last_text(events, n - 1, local, prefix),
        }
    }
}

/// Why an event ends the reading of a document.
pub open spec fn event_failure(event: XmlEventView) -> Option<Seq<char>> {
    match event {
        XmlEventView::Text(Err(m)) => Some("Text decode error: "@ + m),
        XmlEventView::Failed(m) => Some("XML parsing error: "@ + m),
        _ => None,
    }
}

/// The first failure among the first `n` events.
pub open spec fn failure(events: Seq<XmlEventView>, n: int) -> Option<Seq<char>>
    decreases n,
{
    if n <= 0 {
        None
    } else if failure(events, n - 1) is Some {
        failure(events, n - 1)
    } else {
        event_failure(events[n - 1])
    }
}

/// A failure is not undone by later events.
pub proof fn lemma_failure_lasts(events: Seq<XmlEventView>, n: int, m: int)
    requires
        0 <= n <= m,
        failure(events, n) is Some,
    ensures
        failure(events, m) == failure(events, n),
    decreases m,
{
    if n < m {
        lemma_failure_lasts(events, n, m - 1);
    }
}

// ---------------------------------------------------------------------------------------------
// Laws
// ---------------------------------------------------------------------------------------------

/// `name` is `local`, or ends with a colon and `local`.
pub open spec fn bears(name: Seq<char>, local: Seq<char>) -> bool {
    name == local || (seq![':'] + local).is_suffix_of(name)
}

/// Event `j` is a start tag, and no tag stands between it and event `i`.
pub open spec fn stands_behind(events: Seq<XmlEventView>, j: int, i: int) -> bool {
    &&& 0 <= j < i
    &&& events[j] is Start
    &&& forall|k: int| j < k < i ==> !((#[trigger] events[k]) is Start) && !(events[k] is End)
}

/// Event `i` is the text `t`, directly behind the start tag of an element `local`.
pub open spec fn is_text_of(
    events: Seq<XmlEventView>,
    i: int,
    local: Seq<char>,
    t: Seq<char>,
) -> bool {
    &&& events[i] == XmlEventView::Text(Ok::<Seq<char>, Seq<char>>(t))
    &&& exists|j: int| #[trigger]
        stands_behind(events, j, i) && bears(events[j]->Start_name, local)
}

/// `t` is the last text with a prefix that stands directly behind the start tag of an element
/// `local`, among the first `n` events.
pub open spec fn is_last_text(
    events: Seq<XmlEventView>,
    n: int,
    local: Seq<char>,
    prefix: Seq<char>,
    t: Seq<char>,
) -> bool {
    exists|i: int|
        0 <= i < n && #[trigger] is_text_of(events, i, local, t) && prefix.is_prefix_of(t)
            && forall|k: int, u: Seq<char>|
            i < k < n && #[trigger] is_text_of(events, k, local, u) ==> !prefix.is_prefix_of(u)
}

/// No text with a prefix stands directly behind the start tag of an element `local`.
pub open spec fn has_no_text(
    events: Seq<XmlEventView>,
    n: int,
    local: Seq<char>,
    prefix: Seq<char>,
) -> bool {
    forall|k: int, u: Seq<char>|
        0 <= k < n && #[trigger] is_text_of(events, k, local, u) ==> !prefix.is_prefix_of(u)
}

/// The element at an event is that of the start tag which it stands directly behind, if any.
pub proof fn law_element_at(events: Seq<XmlEventView>, n: int)
    requires
        0 <= n <= events.len(),
    ensures
        forall|j: int| #[trigger]
            stands_behind(events, j, n) ==> element_at(events, n) == events[j]->Start_name,
        element_at(events, n).len() > 0 ==> exists|j: int| #[trigger] stands_behind(events, j, n),
    decreases n,
{
    if n > 0 {
        law_element_at(events, n - 1);
        assert forall|j: int| #[trigger] stands_behind(events, j, n) implies element_at(events, n)
            == events[j]->Start_name by {
            if j < n - 1 {
                assert(!(events[n - 1] is Start) && !(events[n - 1] is End));
                assert(stands_behind(events, j, n - 1));
            }
        }
        if element_at(events, n).len() > 0 {
            if events[n - 1] is Start {
                assert(stands_behind(events, n - 1, n));
            } else {
                let j = choose|j: int| #[trigger] stands_behind(events, j, n - 1);
                assert(stands_behind(events, j, n));
            }
        }
    }
}

/// A text is looked at exactly if it stands directly behind the start tag of the element.
pub proof fn lemma_is_text_of(
    events: Seq<XmlEventView>,
    i: int,
    local: Seq<char>,
    t: Seq<char>,
)
    requires
        0 <= i < events.len(),
        local.len() > 0,
        !local.contains(':'),
    ensures
        is_text_of(events, i, local, t) <==> events[i] == XmlEventView::Text(
            Ok::<Seq<char>, Seq<char>>(t),
        ) && has_local_name(element_at(events, i), local),
{
    law_element_at(events, i);
    law_local_name(element_at(events, i), local);
    if has_local_name(element_at(events, i), local) {
        assert(element_at(events, i).len() > 0);
        let j = choose|j: int| #[trigger] stands_behind(events, j, i);
        assert(bears(events[j]->Start_name, local));
    }
}

/// The last text of an element is that of the last event that is such a text; there is none exactly
/// if no event is.
pub proof fn law_last_text(
    events: Seq<XmlEventView>,
    n: int,
    local: Seq<char>,
    prefix: Seq<char>,
)
    requires
        0 <= n <= events.len(),
        local.len() > 0,
        !local.contains(':'),
    ensures
        last_text(events, n, local, prefix) matches Some(t) ==> is_last_text(
            events,
            n,
            local,
            prefix,
            t,
        ),
        last_text(events, n, local, prefix) is None ==> has_no_text(events, n, local, prefix),
    decreases n,
{
    if n > 0 {
        law_last_text(events, n - 1, local, prefix);
        assert forall|u: Seq<char>|
            #![trigger is_text_of(events, n - 1, local, u)]
            is_text_of(events, n - 1, local, u) <==> events[n - 1] == XmlEventView::Text(
                Ok::<Seq<char>, Seq<char>>(u),
            ) && has_local_name(element_at(events, n - 1), local) by {
            lemma_is_text_of(events, n - 1, local, u);
        }
        if let Some(t) = last_text(events, n, local, prefix) {
            if events[n - 1] == XmlEventView::Text(Ok::<Seq<char>, Seq<char>>(t))
                && has_local_name(element_at(events, n - 1), local) && prefix.is_prefix_of(t) {
                assert(is_text_of(events, n - 1, local, t));
            } else {
                let i = choose|i: int|
                    0 <= i < n - 1 && #[trigger] is_text_of(events, i, local, t)
                        && prefix.is_prefix_of(t) && forall|k: int, u: Seq<char>|
                        i < k < n - 1 && #[trigger] is_text_of(events, k, local, u)
                            ==> !prefix.is_prefix_of(u);
                assert(is_text_of(events, i, local, t));
            }
        }
    }
}

/// `m` is why event `i` cannot be read, and every event before it can be.
pub open spec fn fails_first_at(events: Seq<XmlEventView>, i: int, m: Seq<char>) -> bool {
    &&& events[i] matches XmlEventView::Failed(e) ==> m == "XML parsing error: "@ + e
    &&& events[i] matches XmlEventView::Text(Err(e)) ==> m == "Text decode error: "@ + e
    &&& unreadable(events[i])
    &&& forall|k: int| 0 <= k < i ==> !unreadable(#[trigger] events[k])
}

/// `m` is why the first event that cannot be read cannot be, among the first `n`.
pub open spec fn is_first_failure(events: Seq<XmlEventView>, n: int, m: Seq<char>) -> bool {
    exists|i: int| 0 <= i < n && #[trigger] fails_first_at(events, i, m)
}

/// An event that cannot be read: the document is broken, or an entity in a text is.
pub open spec fn unreadable(event: XmlEventView) -> bool {
    event is Failed || event matches XmlEventView::Text(Err(_))
}

/// A document fails with its first event that cannot be read, and only if there is one.
pub proof fn law_failure(events: Seq<XmlEventView>, n: int)
    requires
        0 <= n <= events.len(),
    ensures
        failure(events, n) is Some ==> is_first_failure(events, n, failure(events, n)->0),
        failure(events, n) is None <==> forall|k: int|
            0 <= k < n ==> !unreadable(#[trigger] events[k]),
    decreases n,
{
    if n > 0 {
        law_failure(events, n - 1);
        if let Some(m) = failure(events, n) {
            if failure(events, n - 1) is Some {
                let i = choose|i: int| 0 <= i < n - 1 && #[trigger] fails_first_at(events, i, m);
                assert(fails_first_at(events, i, m));
                assert(unreadable(events[i]));
            } else {
                assert(fails_first_at(events, n - 1, m));
            }
        } else {
            assert(!unreadable(events[n - 1]));
        }
    }
}

/// Two events are the same but for the namespace prefix of a name and the attributes of a tag.
pub open spec fn same_but_prefix(a: XmlEventView, b: XmlEventView) -> bool {
    match (a, b) {
        (XmlEventView::Start { name: m, .. }, XmlEventView::Start { name: n, .. }) => {
            text::after_last(m, ':') == text::after_last(n, ':')
        },
        (XmlEventView::End(m), XmlEventView::End(n)) => {
            text::after_last(m, ':') == text::after_last(n, ':')
        },
        _ => a == b,
    }
}

/// Two rows of events are the same but for namespace prefixes and attributes.
pub open spec fn all_same_but_prefix(a: Seq<XmlEventView>, b: Seq<XmlEventView>) -> bool {
    &&& a.len() == b.len()
    &&& forall|i: int| 0 <= i < a.len() ==> same_but_prefix(#[trigger] a[i], b[i])
}

/// Namespace prefixes play no part in what an element is.
pub proof fn lemma_element_prefix(a: Seq<XmlEventView>, b: Seq<XmlEventView>, n: int)
    requires
        all_same_but_prefix(a, b),
        n <= a.len(),
    ensures
        text::after_last(element_at(a, n), ':') == text::after_last(element_at(b, n), ':'),
    decreases n,
{
    if n > 0 {
        assert(same_but_prefix(a[n - 1], b[n - 1]));
        lemma_element_prefix(a, b, n - 1);
    }
}

/// Namespace prefixes play no part in the text of an element, nor in whether a document can be
/// read.
pub proof fn law_prefixes_do_not_matter(
    a: Seq<XmlEventView>,
    b: Seq<XmlEventView>,
    n: int,
    local: Seq<char>,
    prefix: Seq<char>,
)
    requires
        all_same_but_prefix(a, b),
        n <= a.len(),
    ensures
        last_text(a, n, local, prefix) == last_text(b, n, local, prefix),
        failure(a, n) == failure(b, n),
    decreases n,
{
    if n > 0 {
        assert(same_but_prefix(a[n - 1], b[n - 1]));
        lemma_element_prefix(a, b, n - 1);
        law_prefixes_do_not_matter(a, b, n - 1, local, prefix);
    }
}

/// Whether `name` without its namespace prefix is `local`.
pub fn local_name_is(name: &str, local: &str) -> (r: bool)
    ensures
        r == has_local_name(name@, local@),
{
    text::same(&text::tail(name, ':'), local)
}

} // verus!
