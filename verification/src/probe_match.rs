//! The answer of a device to a WS-Discovery probe.

use crate::discovery::{DiscoveryError, DiscoveryErrorView};
use crate::elements;
use crate::text;
use crate::xml;
use crate::xml::{XmlEvent, XmlEventView};
use vstd::prelude::*;

verus! {

/// Information extracted from a ProbeMatch response
#[derive(Debug, Clone)]
pub struct ProbeMatchInfo {
    pub endpoint_reference: String,
    pub types: Vec<String>,
    pub scopes: Vec<String>,
    pub x_addrs: Vec<String>,
    pub metadata_version: u32,
}

/// The view of a `ProbeMatchInfo`.
#[verifier::ext_equal]
pub struct ProbeMatchInfoView {
    pub endpoint_reference: Seq<char>,
    pub types: Seq<Seq<char>>,
    pub scopes: Seq<Seq<char>>,
    pub x_addrs: Seq<Seq<char>>,
    pub metadata_version: u32,
}

impl View for ProbeMatchInfo {
    type V = ProbeMatchInfoView;

    open spec fn view(&self) -> ProbeMatchInfoView {
        ProbeMatchInfoView {
            endpoint_reference: self.endpoint_reference@,
            types: text::texts(self.types@),
            scopes: text::texts(self.scopes@),
            x_addrs: text::texts(self.x_addrs@),
            metadata_version: self.metadata_version,
        }
    }
}

impl Default for ProbeMatchInfo {
    fn default() -> (r: Self)
        ensures
            r@ == (ProbeMatchInfoView {
                endpoint_reference: Seq::empty(),
                types: Seq::empty(),
                scopes: Seq::empty(),
                x_addrs: Seq::empty(),
                metadata_version: 0,
            }),
    {
        let r = ProbeMatchInfo {
            endpoint_reference: String::new(),
            types: Vec::new(),
            scopes: Vec::new(),
            x_addrs: Vec::new(),
            metadata_version: 0,
        };
        assert(text::texts(Seq::<String>::empty()) =~= Seq::empty());
        r
    }
}

// ---------------------------------------------------------------------------------------------
// What a response says
// ---------------------------------------------------------------------------------------------

/// Event `n` stands inside a ProbeMatch element, whatever its namespace prefix: a start tag whose
/// name ends with `ProbeMatch` came before it, and no such end tag since.
pub open spec fn in_match_at(events: Seq<XmlEventView>, n: int) -> bool
    decreases n,
{
    if n <= 0 {
        false
    } else {
        match events[n - 1] {
            XmlEventView::Start { name, .. } if "ProbeMatch"@.is_suffix_of(name) => true,
            XmlEventView::End(name) if "ProbeMatch"@.is_suffix_of(name) => false,
            _ => in_match_at(events, n - 1),
        }
    }
}

/// The last text among the first `n` events that starts with `prefix` and stands inside a
/// ProbeMatch, behind the start tag of an element with the local name `local`.
pub open spec fn match_text(
    events: Seq<XmlEventView>,
    n: int,
    local: Seq<char>,
    prefix: Seq<char>,
) -> Option<Seq<char>>
    decreases n,
{
    if n <= 0 {
        None
    } else {
        match events[n - 1] {
            XmlEventView::Text(Ok(t)) if in_match_at(events, n - 1) && elements::has_local_name(
                elements::element_at(events, n - 1),
                local,
            ) && prefix.is_prefix_of(t) => Some(t),
            _ => match_text(events, n - 1, local, prefix),
        }
    }
}

/// The first failure among the first `n` events. Text that stands outside any ProbeMatch is not
/// looked at.
pub open spec fn match_failure(events: Seq<XmlEventView>, n: int) -> Option<Seq<char>>
    decreases n,
{
    if n <= 0 {
        None
    } else if match_failure(events, n - 1) is Some {
        match_failure(events, n - 1)
    } else if events[n - 1] is Text && !in_match_at(events, n - 1) {
        None
    } else {
        elements::event_failure(events[n - 1])
    }
}

/// What the last address with a UUID names, as of event `n`.
pub open spec fn endpoint_at(events: Seq<XmlEventView>, n: int) -> Seq<char> {
    match match_text(events, n, "Address"@, "urn:uuid:"@) {
        Some(t) => t.skip("urn:uuid:"@.len() as int),
        None => Seq::empty(),
    }
}

/// The words of the last text in an element `local`, as of event `n`.
pub open spec fn words_at(events: Seq<XmlEventView>, n: int, local: Seq<char>) -> Seq<Seq<char>> {
    match match_text(events, n, local, Seq::empty()) {
        Some(t) => text::words(t),
        None => Seq::empty(),
    }
}

/// The last metadata version as of event `n`; zero where it is no number of 32 bits.
pub open spec fn version_at(events: Seq<XmlEventView>, n: int) -> u32 {
    match match_text(events, n, "MetadataVersion"@, Seq::empty()) {
        Some(t) => match text::unsigned_value(t) {
            Some(v) if v <= u32::MAX => v as u32,
            _ => 0,
        },
        None => 0,
    }
}

/// What the first `n` events of a response say.
pub open spec fn info_at(events: Seq<XmlEventView>, n: int) -> ProbeMatchInfoView {
    ProbeMatchInfoView {
        endpoint_reference: endpoint_at(events, n),
        types: words_at(events, n, "Types"@),
        scopes: words_at(events, n, "Scopes"@),
        x_addrs: words_at(events, n, "XAddrs"@),
        metadata_version: version_at(events, n),
    }
}

/// What a response says, or why it says nothing.
pub open spec fn probe_match_of(events: Seq<XmlEventView>) -> Result<
    ProbeMatchInfoView,
    DiscoveryErrorView,
> {
    let n = events.len() as int;
    if match_failure(events, n) is Some {
        Err(DiscoveryErrorView::XmlParsing(match_failure(events, n)->0))
    } else if endpoint_at(events, n).len() == 0 {
        Err(
            DiscoveryErrorView::InvalidResponse("No endpoint reference found in ProbeMatch"@),
        )
    } else {
        Ok(info_at(events, n))
    }
}

/// The view of what a response says, or of why it says nothing.
pub open spec fn probe_match_view(
    r: Result<ProbeMatchInfo, DiscoveryError>,
) -> Result<ProbeMatchInfoView, DiscoveryErrorView> {
    match r {
        Ok(info) => Ok(info@),
        Err(e) => Err(e@),
    }
}

/// A failure is not undone by later events.
proof fn lemma_match_failure_lasts(events: Seq<XmlEventView>, n: int, m: int)
    requires
        0 <= n <= m,
        match_failure(events, n) is Some,
    ensures
        match_failure(events, m) == match_failure(events, n),
    decreases m,
{
    if n < m {
        lemma_match_failure_lasts(events, n, m - 1);
    }
}

/// Without the start tag of a ProbeMatch there is no text in one.
proof fn lemma_no_match(events: Seq<XmlEventView>, n: int)
    requires
        n <= events.len(),
        forall|i: int|
            0 <= i < events.len() ==> !(#[trigger] events[i] matches XmlEventView::Start {
                name,
                ..
            } && "ProbeMatch"@.is_suffix_of(name)),
    ensures
        !in_match_at(events, n),
        match_text(events, n, "Address"@, "urn:uuid:"@) is None,
    decreases n,
{
    if n > 0 {
        lemma_no_match(events, n - 1);
    }
}

/// A response without a ProbeMatch is refused, whatever else it says.
pub proof fn law_response_needs_match(events: Seq<XmlEventView>)
    requires
        forall|i: int|
            0 <= i < events.len() ==> !(#[trigger] events[i] matches XmlEventView::Start {
                name,
                ..
            } && "ProbeMatch"@.is_suffix_of(name)),
    ensures
        probe_match_of(events) is Err,
{
    lemma_no_match(events, events.len() as int);
}

/// A response that is accepted names an endpoint.
pub proof fn law_endpoint_is_named(events: Seq<XmlEventView>)
    ensures
        probe_match_of(events) matches Ok(info) ==> info.endpoint_reference.len() > 0,
{
}

/// A name ends with `ProbeMatch` exactly if it does without its namespace prefix.
proof fn lemma_match_name(name: Seq<char>)
    ensures
        "ProbeMatch"@.is_suffix_of(name) <==> "ProbeMatch"@.is_suffix_of(
            text::after_last(name, ':'),
        ),
{
    reveal_strlit("ProbeMatch");
    let suffix = "ProbeMatch"@;
    let local = text::after_last(name, ':');
    let n = name.len() as int;
    let m = local.len() as int;
    assert(suffix.len() == 10);
    text::lemma_after_last(name, ':');
    if suffix.is_suffix_of(name) {
        if m < 10 {
            assert(name[n - m - 1] == name.subrange(n - 10, n)[9 - m]);
        }
        assert(local.subrange(m - 10, m) =~= name.subrange(n - 10, n));
    }
    if suffix.is_suffix_of(local) {
        assert(local.subrange(m - 10, m) =~= name.subrange(n - 10, n));
    }
}

/// Namespace prefixes play no part in what stands inside a ProbeMatch.
proof fn lemma_match_prefix(
    a: Seq<XmlEventView>,
    b: Seq<XmlEventView>,
    n: int,
    local: Seq<char>,
    prefix: Seq<char>,
)
    requires
        elements::all_same_but_prefix(a, b),
        n <= a.len(),
    ensures
        in_match_at(a, n) == in_match_at(b, n),
        match_text(a, n, local, prefix) == match_text(b, n, local, prefix),
        match_failure(a, n) == match_failure(b, n),
    decreases n,
{
    if n > 0 {
        assert(elements::same_but_prefix(a[n - 1], b[n - 1]));
        match (a[n - 1], b[n - 1]) {
            (XmlEventView::Start { name: x, .. }, XmlEventView::Start { name: y, .. }) => {
                lemma_match_name(x);
                lemma_match_name(y);
            },
            (XmlEventView::End(x), XmlEventView::End(y)) => {
                lemma_match_name(x);
                lemma_match_name(y);
            },
            _ => {},
        }
        elements::lemma_element_prefix(a, b, n - 1);
        lemma_match_prefix(a, b, n - 1, local, prefix);
    }
}

/// Devices may use any namespace prefixes: two responses whose names agree behind the last colon
/// say the same.
pub proof fn law_prefixes_do_not_matter(a: Seq<XmlEventView>, b: Seq<XmlEventView>)
    requires
        elements::all_same_but_prefix(a, b),
    ensures
        probe_match_of(a) == probe_match_of(b),
{
    let n = a.len() as int;
    let any = Seq::<char>::empty();
    lemma_match_prefix(a, b, n, "Address"@, "urn:uuid:"@);
    lemma_match_prefix(a, b, n, "Types"@, any);
    lemma_match_prefix(a, b, n, "Scopes"@, any);
    lemma_match_prefix(a, b, n, "XAddrs"@, any);
    lemma_match_prefix(a, b, n, "MetadataVersion"@, any);
}

/// The text of a word is not empty and holds no white space.
pub open spec fn is_word(s: Seq<char>) -> bool {
    &&& s.len() > 0
    &&& forall|i: int| 0 <= i < s.len() ==> !text::white_space(#[trigger] s[i])
}

/// Every type, scope and address that a response names is a word.
pub proof fn law_lists_hold_words(events: Seq<XmlEventView>, n: int, local: Seq<char>, k: int)
    requires
        0 <= k < words_at(events, n, local).len(),
    ensures
        is_word(words_at(events, n, local)[k]),
{
    text::law_words(match_text(events, n, local, Seq::empty())->0, k);
}

// ---------------------------------------------------------------------------------------------
// Laws
// ---------------------------------------------------------------------------------------------

/// A ProbeMatch that is open before event `n` was opened by event `s`.
pub open spec fn open_since(events: Seq<XmlEventView>, s: int, n: int) -> bool {
    &&& 0 <= s < n
    &&& events[s] is Start && "ProbeMatch"@.is_suffix_of(events[s]->Start_name)
    &&& forall|k: int|
        s < k < n && (#[trigger] events[k]) is End ==> !"ProbeMatch"@.is_suffix_of(
            events[k]->End_0,
        )
}

/// Event `n` stands in a ProbeMatch.
pub open spec fn stands_in_match(events: Seq<XmlEventView>, n: int) -> bool {
    exists|s: int| #[trigger] open_since(events, s, n)
}

/// An event stands in a ProbeMatch exactly if the start tag of one came before it, and no end tag
/// of one since.
pub proof fn law_in_match(events: Seq<XmlEventView>, n: int)
    ensures
        in_match_at(events, n) <==> stands_in_match(events, n),
    decreases n,
{
    if n > 0 {
        law_in_match(events, n - 1);
        let e = events[n - 1];
        if e is Start && "ProbeMatch"@.is_suffix_of(e->Start_name) {
            assert(open_since(events, n - 1, n));
        } else if e is End && "ProbeMatch"@.is_suffix_of(e->End_0) {
            assert forall|s: int| !#[trigger] open_since(events, s, n) by {
                if s == n - 1 {
                    assert(events[s] is End);
                }
            }
        } else {
            if in_match_at(events, n - 1) {
                let s = choose|s: int| #[trigger] open_since(events, s, n - 1);
                assert(open_since(events, s, n));
            }
            if stands_in_match(events, n) {
                let s = choose|s: int| #[trigger] open_since(events, s, n);
                assert(s != n - 1);
                assert(open_since(events, s, n - 1));
            }
        }
    }
}

/// Event `i` is the text `t` of an element `local` in a ProbeMatch.
pub open spec fn is_match_text(
    events: Seq<XmlEventView>,
    i: int,
    local: Seq<char>,
    t: Seq<char>,
) -> bool {
    stands_in_match(events, i) && elements::is_text_of(events, i, local, t)
}

/// Event `i` is the last text with a prefix of an element `local` in a ProbeMatch, and it is `t`.
pub open spec fn is_last_match_text(
    events: Seq<XmlEventView>,
    i: int,
    n: int,
    local: Seq<char>,
    prefix: Seq<char>,
    t: Seq<char>,
) -> bool {
    &&& 0 <= i < n
    &&& is_match_text(events, i, local, t)
    &&& prefix.is_prefix_of(t)
    &&& forall|k: int, u: Seq<char>|
        i < k < n && #[trigger] is_match_text(events, k, local, u) ==> !prefix.is_prefix_of(u)
}

/// No text with a prefix stands in an element `local` in a ProbeMatch.
pub open spec fn has_no_match_text(
    events: Seq<XmlEventView>,
    n: int,
    local: Seq<char>,
    prefix: Seq<char>,
) -> bool {
    forall|k: int, u: Seq<char>|
        0 <= k < n && #[trigger] is_match_text(events, k, local, u) ==> !prefix.is_prefix_of(u)
}

/// The text of an element in a ProbeMatch is that of the last event that is such a text, and there
/// is none exactly if no event is.
pub proof fn law_match_text(
    events: Seq<XmlEventView>,
    n: int,
    local: Seq<char>,
    prefix: Seq<char>,
)
    requires
        0 <= n <= events.len(),
        local.len() > 0,
        !local.contains(':'),
    ensures
        forall|i: int, t: Seq<char>| #[trigger]
            is_last_match_text(events, i, n, local, prefix, t) ==> match_text(
                events,
                n,
                local,
                prefix,
            ) == Some(t),
        match_text(events, n, local, prefix) is None <==> has_no_match_text(
            events,
            n,
            local,
            prefix,
        ),
    decreases n,
{
    if n > 0 {
        let last = events[n - 1];
        law_match_text(events, n - 1, local, prefix);
        law_in_match(events, n - 1);
        assert forall|u: Seq<char>| #[trigger]
            is_match_text(events, n - 1, local, u) <==> in_match_at(events, n - 1) && last
                == XmlEventView::Text(Ok::<Seq<char>, Seq<char>>(u)) && elements::has_local_name(
                elements::element_at(events, n - 1),
                local,
            ) by {
            elements::lemma_is_text_of(events, n - 1, local, u);
        }
        if last matches XmlEventView::Text(Ok(u)) && is_match_text(events, n - 1, local, u)
            && prefix.is_prefix_of(u) {
            let u = last->Text_0->Ok_0;
            assert(match_text(events, n, local, prefix) == Some(u));
            assert forall|i: int, t: Seq<char>| #[trigger]
                is_last_match_text(events, i, n, local, prefix, t) implies t == u by {
                if i < n - 1 {
                    assert(!prefix.is_prefix_of(u));
                }
            }
            assert(!has_no_match_text(events, n, local, prefix));
        } else {
            assert forall|u: Seq<char>| #[trigger]
                is_match_text(events, n - 1, local, u) implies !prefix.is_prefix_of(u) by {}
            assert(match_text(events, n, local, prefix) == match_text(
                events,
                n - 1,
                local,
                prefix,
            ));
            assert forall|i: int, t: Seq<char>| #[trigger]
                is_last_match_text(events, i, n, local, prefix, t) implies match_text(
                events,
                n,
                local,
                prefix,
            ) == Some(t) by {
                assert(i != n - 1);
                assert(is_last_match_text(events, i, n - 1, local, prefix, t));
            }
        }
    }
}

/// Event `i` cannot be read, and it matters: a broken document does anywhere, a broken text only
/// inside a ProbeMatch.
pub open spec fn breaks_at(events: Seq<XmlEventView>, i: int) -> bool {
    events[i] is Failed || (events[i] is Text && events[i]->Text_0 is Err && stands_in_match(
        events,
        i,
    ))
}

/// Event `i` is the first that breaks the response, and `m` says so.
pub open spec fn breaks_first_at(events: Seq<XmlEventView>, i: int, m: Seq<char>) -> bool {
    &&& breaks_at(events, i)
    &&& events[i] is Failed ==> m == "XML parsing error: "@ + events[i]->Failed_0
    &&& events[i] is Text ==> m == "Text decode error: "@ + events[i]->Text_0->Err_0
    &&& forall|k: int| 0 <= k < i ==> !#[trigger] breaks_at(events, k)
}

/// The first event that breaks the response decides, and tells why.
pub proof fn law_match_failure(events: Seq<XmlEventView>, n: int)
    ensures
        match_failure(events, n) is None <==> forall|k: int|
            0 <= k < n ==> !#[trigger] breaks_at(events, k),
        forall|i: int, m: Seq<char>|
            0 <= i < n && #[trigger] breaks_first_at(events, i, m) ==> match_failure(events, n)
                == Some(m),
    decreases n,
{
    if n > 0 {
        law_match_failure(events, n - 1);
        law_in_match(events, n - 1);
        if match_failure(events, n - 1) is Some && forall|k: int|
            0 <= k < n ==> !#[trigger] breaks_at(events, k) {
            assert(forall|k: int| 0 <= k < n - 1 ==> !#[trigger] breaks_at(events, k));
        }
        assert(match_failure(events, n - 1) is None ==> (breaks_at(events, n - 1)
            <==> match_failure(events, n) is Some));
        assert forall|i: int, m: Seq<char>|
            0 <= i < n && #[trigger] breaks_first_at(events, i, m) implies match_failure(events, n)
            == Some(m) by {
            if i == n - 1 {
                assert(match_failure(events, n - 1) is None);
            }
        }
    }
}

/// `list` holds the words of the last text of an element `local` in a ProbeMatch, and nothing if
/// there is none.
pub open spec fn is_list(events: Seq<XmlEventView>, local: Seq<char>, list: Seq<Seq<char>>) -> bool {
    let n = events.len() as int;
    &&& forall|i: int, t: Seq<char>| #[trigger]
        is_last_match_text(events, i, n, local, Seq::empty(), t) ==> list == text::words(t)
    &&& has_no_match_text(events, n, local, Seq::empty()) ==> list.len() == 0
}

/// A list is that of the words in its element.
proof fn lemma_list(events: Seq<XmlEventView>, local: Seq<char>)
    requires
        local.len() > 0,
        !local.contains(':'),
    ensures
        is_list(events, local, words_at(events, events.len() as int, local)),
{
    law_match_text(events, events.len() as int, local, Seq::empty());
}

/// A response that is not broken is accepted exactly if the last `urn:uuid:` address in a
/// ProbeMatch names something; the endpoint is then all that follows `urn:uuid:` there. The types,
/// the scopes and the addresses are the words of the last text of their elements in a ProbeMatch,
/// and the version is its number, or zero where it is no number or over 32 bits.
pub proof fn law_probe_match(events: Seq<XmlEventView>)
    ensures
        ({
            let n = events.len() as int;
            let r = probe_match_of(events);
            let info = r->Ok_0;
            &&& forall|i: int, m: Seq<char>|
                0 <= i < n && #[trigger] breaks_first_at(events, i, m) ==> r == Err::<
                    ProbeMatchInfoView,
                    DiscoveryErrorView,
                >(DiscoveryErrorView::XmlParsing(m))
            &&& (forall|k: int| 0 <= k < n ==> !#[trigger] breaks_at(events, k)) ==> {
                &&& r is Err ==> r->Err_0 == DiscoveryErrorView::InvalidResponse(
                    "No endpoint reference found in ProbeMatch"@,
                )
                &&& has_no_match_text(events, n, "Address"@, "urn:uuid:"@) ==> r is Err
                &&& forall|i: int, t: Seq<char>| #[trigger]
                    is_last_match_text(events, i, n, "Address"@, "urn:uuid:"@, t) ==> {
                        &&& r is Ok <==> t != "urn:uuid:"@
                        &&& r is Ok ==> t == "urn:uuid:"@ + info.endpoint_reference
                    }
                &&& r is Ok ==> {
                    &&& is_list(events, "Types"@, info.types)
                    &&& is_list(events, "Scopes"@, info.scopes)
                    &&& is_list(events, "XAddrs"@, info.x_addrs)
                    &&& has_no_match_text(events, n, "MetadataVersion"@, Seq::empty())
                        ==> info.metadata_version == 0
                    &&& forall|i: int, t: Seq<char>| #[trigger]
                        is_last_match_text(events, i, n, "MetadataVersion"@, Seq::empty(), t) ==> {
                            let v = text::unsigned_value(t);
                            &&& v is Some && v->0 <= u32::MAX ==> info.metadata_version == v->0
                            &&& v is None || v->0 > u32::MAX ==> info.metadata_version == 0
                        }
                }
            }
        }),
{
    let n = events.len() as int;
    law_match_failure(events, n);
    reveal_strlit("Address");
    reveal_strlit("Types");
    reveal_strlit("Scopes");
    reveal_strlit("XAddrs");
    reveal_strlit("MetadataVersion");
    law_match_text(events, n, "Address"@, "urn:uuid:"@);
    law_match_text(events, n, "MetadataVersion"@, Seq::empty());
    lemma_list(events, "Types"@);
    lemma_list(events, "Scopes"@);
    lemma_list(events, "XAddrs"@);
    let prefix = "urn:uuid:"@;
    assert forall|i: int, t: Seq<char>| #[trigger]
        is_last_match_text(events, i, n, "Address"@, prefix, t) implies t == prefix + endpoint_at(
        events,
        n,
    ) && (endpoint_at(events, n).len() == 0 <==> t == prefix) by {
        assert(t =~= prefix + t.skip(prefix.len() as int));
        if endpoint_at(events, n).len() == 0 {
            assert(t =~= prefix);
        }
    }
}

// ---------------------------------------------------------------------------------------------
// Reading a response
// ---------------------------------------------------------------------------------------------

/// Reads one text of a ProbeMatch that stands in the element `element`.
fn read_text(info: &mut ProbeMatchInfo, element: &str, content: &str)
    ensures
        final(info)@.endpoint_reference == (if elements::has_local_name(element@, "Address"@)
            && "urn:uuid:"@.is_prefix_of(content@) {
            content@.skip("urn:uuid:"@.len() as int)
        } else {
            old(info)@.endpoint_reference
        }),
        final(info)@.types == (if elements::has_local_name(element@, "Types"@) {
            text::words(content@)
        } else {
            old(info)@.types
        }),
        final(info)@.scopes == (if elements::has_local_name(element@, "Scopes"@) {
            text::words(content@)
        } else {
            old(info)@.scopes
        }),
        final(info)@.x_addrs == (if elements::has_local_name(element@, "XAddrs"@) {
            text::words(content@)
        } else {
            old(info)@.x_addrs
        }),
        final(info)@.metadata_version == (if elements::has_local_name(
            element@,
            "MetadataVersion"@,
        ) {
            match text::unsigned_value(content@) {
                Some(v) if v <= u32::MAX => v as u32,
                _ => 0,
            }
        } else {
            old(info)@.metadata_version
        }),
{
    proof {
        reveal_strlit("Address");
        reveal_strlit("Types");
        reveal_strlit("Scopes");
        reveal_strlit("XAddrs");
        reveal_strlit("MetadataVersion");
        assert("Address"@.len() == 7 && "Types"@.len() == 5 && "MetadataVersion"@.len() == 15);
        assert("Scopes"@.len() == 6 && "XAddrs"@.len() == 6 && "Scopes"@[0] != "XAddrs"@[0]);
    }
    let local = text::tail(element, ':');
    if text::same(&local, "Address") {
        if let Some(rest) = text::strip_prefix(content, "urn:uuid:") {
            info.endpoint_reference = rest;
        }
    } else if text::same(&local, "Types") {
        info.types = text::split_words(content);
    } else if text::same(&local, "Scopes") {
        info.scopes = text::split_words(content);
    } else if text::same(&local, "XAddrs") {
        info.x_addrs = text::split_words(content);
    } else if text::same(&local, "MetadataVersion") {
        info.metadata_version = match text::parse_u32(content) {
            Some(v) => v,
            None => 0,
        };
    }
}

/// Reads a ProbeMatch out of the events of a response.
pub fn probe_match_from_events(events: &Vec<XmlEvent>) -> (r: Result<
    ProbeMatchInfo,
    DiscoveryError,
>)
    ensures
        probe_match_view(r) == probe_match_of(xml::event_views(events@)),
{
    let ghost views = xml::event_views(events@);
    let mut info = ProbeMatchInfo::default();
    let mut element = String::new();
    let mut in_match = false;
    let mut i: usize = 0;
    assert(info@ =~= info_at(views, 0));
    while i < events.len()
        invariant
            views == xml::event_views(events@),
            i <= events.len(),
            element@ == elements::element_at(views, i as int),
            in_match == in_match_at(views, i as int),
            match_failure(views, i as int) is None,
            info@ == info_at(views, i as int),
        decreases events.len() - i,
    {
        let ghost n = i as int;
        assert(views[n] == events@[n]@);
        match &events[i] {
            XmlEvent::Start { name, attributes: _ } => {
                if text::ends_with(name, "ProbeMatch") {
                    in_match = true;
                }
                element = name.clone();
                assert(info_at(views, n + 1) =~= info_at(views, n));
            },
            XmlEvent::Text(content) => {
                if in_match {
                    match content {
                        Ok(t) => {
                            read_text(&mut info, &element, t);
                            assert(info@ =~= info_at(views, n + 1));
                        },
                        Err(m) => {
                            proof {
                                lemma_match_failure_lasts(views, n + 1, views.len() as int);
                            }
                            return Err(
                                DiscoveryError::XmlParsing(
                                    "Text decode error: ".to_owned().concat(m),
                                ),
                            );
                        },
                    }
                } else {
                    assert(info_at(views, n + 1) =~= info_at(views, n));
                }
            },
            XmlEvent::End(name) => {
                if text::ends_with(name, "ProbeMatch") {
                    in_match = false;
                }
                element = String::new();
                assert(info_at(views, n + 1) =~= info_at(views, n));
            },
            XmlEvent::Failed(m) => {
                proof {
                    lemma_match_failure_lasts(views, n + 1, views.len() as int);
                }
                return Err(
                    DiscoveryError::XmlParsing("XML parsing error: ".to_owned().concat(m)),
                );
            },
            XmlEvent::Other => {
                assert(info_at(views, n + 1) =~= info_at(views, n));
            },
        }
        i += 1;
    }
    if text::is_empty(&info.endpoint_reference) {
        return Err(
            DiscoveryError::InvalidResponse(
                "No endpoint reference found in ProbeMatch".to_owned(),
            ),
        );
    }
    Ok(info)
}

/// Parse a WS-Discovery ProbeMatch response
pub fn parse_probe_match_response(xml: &str) -> (r: Result<ProbeMatchInfo, DiscoveryError>)
    ensures
        probe_match_view(r) == probe_match_of(xml::buffered_events(xml@)),
{
    let events = xml::read_buffered(xml);
    probe_match_from_events(&events)
}

} // verus!
