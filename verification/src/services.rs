//! The services that a device offers, as its GetServices response names them.

use crate::device;
use crate::device::{InterrogationError, InterrogationErrorView, ServiceInfo, ServiceInfoView};
use crate::text;
use crate::xml;
use crate::xml::{XmlEvent, XmlEventView};
use vstd::prelude::*;

verus! {

// ---------------------------------------------------------------------------------------------
// Services that the response names
// ---------------------------------------------------------------------------------------------

/// `name` is `local`, alone or with the prefix of the device service namespace.
pub open spec fn names(name: Seq<char>, local: Seq<char>) -> bool {
    name == local || name == "tds:"@ + local
}

/// Event `n` stands inside a Service element.
pub open spec fn in_service_at(events: Seq<XmlEventView>, n: int) -> bool
    decreases n,
{
    if n <= 0 {
        false
    } else {
        match events[n - 1] {
            XmlEventView::Start { name, .. } if names(name, "Service"@) => true,
            XmlEventView::End(name) if names(name, "Service"@) => false,
            _ => in_service_at(events, n - 1),
        }
    }
}

/// Event `n` stands behind the start tag of an element `local` of a service, and not behind an
/// end tag of that name.
pub open spec fn in_part_at(events: Seq<XmlEventView>, n: int, local: Seq<char>) -> bool
    decreases n,
{
    if n <= 0 {
        false
    } else {
        match events[n - 1] {
            XmlEventView::Start { name, .. } if names(name, local) && in_service_at(
                events,
                n - 1,
            ) => true,
            XmlEventView::End(name) if names(name, local) => false,
            _ => in_part_at(events, n - 1, local),
        }
    }
}

/// What a text at event `n` tells.
pub enum ServicePart {
    Namespace,
    Url,
    Version,
    Nothing,
}

/// What a text at event `n` tells. Where several elements are open, the namespace goes before the
/// address, and the address before the version.
pub open spec fn part_at(events: Seq<XmlEventView>, n: int) -> ServicePart {
    if !in_service_at(events, n) {
        ServicePart::Nothing
    } else if in_part_at(events, n, "Namespace"@) {
        ServicePart::Namespace
    } else if in_part_at(events, n, "XAddr"@) {
        ServicePart::Url
    } else if in_part_at(events, n, "Version"@) {
        ServicePart::Version
    } else {
        ServicePart::Nothing
    }
}

/// The last text of the service at event `n` that tells `part`, without white space around it;
/// empty if there is none since the start tag of the service.
pub open spec fn part_text(events: Seq<XmlEventView>, n: int, part: ServicePart) -> Seq<char>
    decreases n,
{
    if n <= 0 {
        Seq::empty()
    } else {
        match events[n - 1] {
            XmlEventView::Start { name, .. } if names(name, "Service"@) => Seq::empty(),
            XmlEventView::Text(Ok(t)) if part_at(events, n - 1) == part => text::trim(t),
            _ => part_text(events, n - 1, part),
        }
    }
}

/// The services whose end tag is among the first `n` events. One without a namespace or an
/// address is left out; the version is `1.0` unless the response tells it.
pub open spec fn services_at(events: Seq<XmlEventView>, n: int) -> Seq<ServiceInfoView>
    decreases n,
{
    if n <= 0 {
        Seq::empty()
    } else {
        let before = services_at(events, n - 1);
        let namespace = part_text(events, n - 1, ServicePart::Namespace);
        let url = part_text(events, n - 1, ServicePart::Url);
        let version = part_text(events, n - 1, ServicePart::Version);
        match events[n - 1] {
            XmlEventView::End(name) if names(name, "Service"@) && in_service_at(events, n - 1)
                && namespace.len() > 0 && url.len() > 0 => before.push(
                ServiceInfoView {
                    namespace,
                    url,
                    version: if version.len() > 0 {
                        version
                    } else {
                        "1.0"@
                    },
                },
            ),
            _ => before,
        }
    }
}

/// Why an event ends the reading of the response.
pub open spec fn service_failure(event: XmlEventView) -> Option<Seq<char>> {
    match event {
        XmlEventView::Text(Err(m)) => Some("XML decode error: "@ + m),
        XmlEventView::Failed(m) => Some("XML parse error: "@ + m),
        _ => None,
    }
}

/// The first failure among the first `n` events.
pub open spec fn services_failure(events: Seq<XmlEventView>, n: int) -> Option<Seq<char>>
    decreases n,
{
    if n <= 0 {
        None
    } else if services_failure(events, n - 1) is Some {
        services_failure(events, n - 1)
    } else {
        service_failure(events[n - 1])
    }
}

/// A failure is not undone by later events.
proof fn lemma_services_failure_lasts(events: Seq<XmlEventView>, n: int, m: int)
    requires
        0 <= n <= m,
        services_failure(events, n) is Some,
    ensures
        services_failure(events, m) == services_failure(events, n),
    decreases m,
{
    if n < m {
        lemma_services_failure_lasts(events, n, m - 1);
    }
}

// ---------------------------------------------------------------------------------------------
// Services guessed from an address in the response
// ---------------------------------------------------------------------------------------------

/// `c` cannot stand in an address.
pub open spec fn ends_address(c: char) -> bool {
    text::white_space(c) || c == '<' || c == '"'
}

/// The first position at or after `from` that ends an address, or the length of `s`.
pub open spec fn address_end(s: Seq<char>, from: int) -> int
    decreases s.len() - from,
{
    if from >= s.len() {
        s.len() as int
    } else if ends_address(s[from]) {
        from
    } else {
        address_end(s, from + 1)
    }
}

/// The address of a host that a line names: from the first `http://` up to `/onvif`; failing that
/// up to a character that ends it, unless it ends with a slash.
pub open spec fn line_base_url(line: Seq<char>) -> Option<Seq<char>> {
    match text::find(line, "http://"@, 0) {
        None => None,
        Some(start) => match text::find(line, "/onvif"@, start) {
            Some(end) => Some(line.subrange(start, end)),
            None => {
                let end = address_end(line, start);
                if end < line.len() && line.subrange(start, end).last() != '/' {
                    Some(line.subrange(start, end))
                } else {
                    None
                }
            },
        },
    }
}

/// The address that the first of the lines from `k` on names that names one.
pub open spec fn first_base_url(lines: Seq<Seq<char>>, k: int) -> Option<Seq<char>>
    decreases lines.len() - k,
{
    if k >= lines.len() {
        None
    } else if line_base_url(lines[k]) is Some {
        line_base_url(lines[k])
    } else {
        first_base_url(lines, k + 1)
    }
}

/// The address of a host that a response names.
pub open spec fn base_url_of(xml: Seq<char>) -> Option<Seq<char>> {
    first_base_url(text::lines(xml, 0), 0)
}

/// The device and the media service where they commonly are on a host.
pub open spec fn common_services(host: Seq<char>) -> Seq<ServiceInfoView> {
    seq![
        ServiceInfoView {
            namespace: "http://www.onvif.org/ver10/device/wsdl"@,
            url: host + "/onvif/device_service"@,
            version: "1.0"@,
        },
        ServiceInfoView {
            namespace: "http://www.onvif.org/ver10/media/wsdl"@,
            url: host + "/onvif/media_service"@,
            version: "1.0"@,
        },
    ]
}

// ---------------------------------------------------------------------------------------------
// The response
// ---------------------------------------------------------------------------------------------

/// The services that a GetServices response with these events names, or the common ones on a host
/// that it names, or why there are none.
pub open spec fn services_of(xml: Seq<char>, events: Seq<XmlEventView>) -> Result<
    Seq<ServiceInfoView>,
    InterrogationErrorView,
> {
    let n = events.len() as int;
    if services_failure(events, n) is Some {
        Err(InterrogationErrorView::InvalidResponse(services_failure(events, n)->0))
    } else if services_at(events, n).len() > 0 {
        Ok(services_at(events, n))
    } else if text::contains(xml, "onvif"@) && base_url_of(xml) is Some {
        Ok(common_services(base_url_of(xml)->0))
    } else {
        Err(
            InterrogationErrorView::ServiceUnavailable(
                "No services found in GetServices response and unable to construct fallback"@,
            ),
        )
    }
}

/// The view of services, or of why there are none.
pub open spec fn services_view(r: Result<Vec<ServiceInfo>, InterrogationError>) -> Result<
    Seq<ServiceInfoView>,
    InterrogationErrorView,
> {
    match r {
        Ok(services) => Ok(device::service_views(services@)),
        Err(e) => Err(e@),
    }
}

/// Every service that a response names has a namespace, an address and a version.
proof fn lemma_services_are_complete(events: Seq<XmlEventView>, n: int, k: int)
    requires
        0 <= k < services_at(events, n).len(),
    ensures
        services_at(events, n)[k].namespace.len() > 0,
        services_at(events, n)[k].url.len() > 0,
        services_at(events, n)[k].version.len() > 0,
    decreases n,
{
    reveal_strlit("1.0");
    if n > 0 && k < services_at(events, n - 1).len() {
        lemma_services_are_complete(events, n - 1, k);
    }
}

/// A response that is accepted brings at least one service, and every service has a namespace, an
/// address and a version.
pub proof fn law_services_are_complete(xml: Seq<char>, events: Seq<XmlEventView>)
    requires
        services_of(xml, events) is Ok,
    ensures
        services_of(xml, events)->Ok_0.len() > 0,
        forall|k: int|
            0 <= k < services_of(xml, events)->Ok_0.len() ==> {
                let service = #[trigger] services_of(xml, events)->Ok_0[k];
                service.namespace.len() > 0 && service.url.len() > 0 && service.version.len() > 0
            },
{
    let n = events.len() as int;
    reveal_strlit("1.0");
    reveal_strlit("http://www.onvif.org/ver10/device/wsdl");
    reveal_strlit("http://www.onvif.org/ver10/media/wsdl");
    reveal_strlit("/onvif/device_service");
    reveal_strlit("/onvif/media_service");
    assert forall|k: int| 0 <= k < services_at(events, n).len() implies {
        let service = #[trigger] services_at(events, n)[k];
        service.namespace.len() > 0 && service.url.len() > 0 && service.version.len() > 0
    } by {
        lemma_services_are_complete(events, n, k);
    }
}

// ---------------------------------------------------------------------------------------------
// Laws
// ---------------------------------------------------------------------------------------------

/// A start tag named `local`, with or without the prefix `tds:`.
pub open spec fn opens(event: XmlEventView, local: Seq<char>) -> bool {
    event is Start && (event->Start_name == local || event->Start_name == "tds:"@ + local)
}

/// An end tag named `local`, with or without the prefix `tds:`.
pub open spec fn closes(event: XmlEventView, local: Seq<char>) -> bool {
    event is End && (event->End_0 == local || event->End_0 == "tds:"@ + local)
}

/// A Service element that is open before event `n` was opened by event `s`.
pub open spec fn open_since(events: Seq<XmlEventView>, s: int, n: int) -> bool {
    &&& 0 <= s < n
    &&& opens(events[s], "Service"@)
    &&& forall|k: int| s < k < n ==> !closes(#[trigger] events[k], "Service"@)
}

/// Event `n` stands in a Service element.
pub open spec fn stands_in_service(events: Seq<XmlEventView>, n: int) -> bool {
    exists|s: int| #[trigger] open_since(events, s, n)
}

/// An element `local` of a service that is open before event `n` was opened by event `s`.
pub open spec fn part_open_since(
    events: Seq<XmlEventView>,
    s: int,
    n: int,
    local: Seq<char>,
) -> bool {
    &&& 0 <= s < n
    &&& opens(events[s], local)
    &&& stands_in_service(events, s)
    &&& forall|k: int| s < k < n ==> !closes(#[trigger] events[k], local)
}

/// Event `n` stands in an element `local` of a service.
pub open spec fn stands_in_part(events: Seq<XmlEventView>, n: int, local: Seq<char>) -> bool {
    exists|s: int| #[trigger] part_open_since(events, s, n, local)
}

/// An event stands in a Service element exactly if a start tag of one came before it, and no end
/// tag of one since.
pub proof fn law_in_service(events: Seq<XmlEventView>, n: int)
    ensures
        in_service_at(events, n) <==> stands_in_service(events, n),
    decreases n,
{
    if n > 0 {
        law_in_service(events, n - 1);
        if opens(events[n - 1], "Service"@) {
            assert(open_since(events, n - 1, n));
        } else if closes(events[n - 1], "Service"@) {
            assert forall|s: int| !#[trigger] open_since(events, s, n) by {
                if s == n - 1 {
                    assert(events[s] is End);
                }
            }
        } else {
            assert forall|s: int| #[trigger]
                open_since(events, s, n) <==> open_since(events, s, n - 1) by {
                if open_since(events, s, n - 1) {
                    assert forall|k: int| s < k < n implies !closes(
                        #[trigger] events[k],
                        "Service"@,
                    ) by {}
                }
                if open_since(events, s, n) {
                    assert(s != n - 1);
                }
            }
            if in_service_at(events, n - 1) {
                let s = choose|s: int| #[trigger] open_since(events, s, n - 1);
                assert(open_since(events, s, n));
            }
            if stands_in_service(events, n) {
                let s = choose|s: int| #[trigger] open_since(events, s, n);
                assert(open_since(events, s, n - 1));
            }
        }
    }
}

/// An event stands in an element of a service exactly if a start tag of the element came before it
/// inside a service, and no end tag of one since.
pub proof fn law_in_part(events: Seq<XmlEventView>, n: int, local: Seq<char>)
    ensures
        in_part_at(events, n, local) <==> stands_in_part(events, n, local),
    decreases n,
{
    if n > 0 {
        law_in_part(events, n - 1, local);
        law_in_service(events, n - 1);
        if opens(events[n - 1], local) && stands_in_service(events, n - 1) {
            assert(part_open_since(events, n - 1, n, local));
        } else if closes(events[n - 1], local) {
            assert forall|s: int| !#[trigger] part_open_since(events, s, n, local) by {
                if s == n - 1 {
                    assert(events[s] is End);
                }
            }
        } else {
            if in_part_at(events, n - 1, local) {
                let s = choose|s: int| #[trigger] part_open_since(events, s, n - 1, local);
                assert(part_open_since(events, s, n, local));
            }
            if stands_in_part(events, n, local) {
                let s = choose|s: int| #[trigger] part_open_since(events, s, n, local);
                assert(s != n - 1);
                assert(part_open_since(events, s, n - 1, local));
            }
        }
    }
}

/// Event `n` is a text that tells `part` of a service: it stands in that part, and in none that
/// goes before it.
pub open spec fn tells(events: Seq<XmlEventView>, n: int, part: ServicePart) -> bool {
    &&& events[n] is Text
    &&& events[n]->Text_0 is Ok
    &&& stands_in_service(events, n)
    &&& match part {
        ServicePart::Namespace => stands_in_part(events, n, "Namespace"@),
        ServicePart::Url => stands_in_part(events, n, "XAddr"@) && !stands_in_part(
            events,
            n,
            "Namespace"@,
        ),
        ServicePart::Version => stands_in_part(events, n, "Version"@) && !stands_in_part(
            events,
            n,
            "XAddr"@,
        ) && !stands_in_part(events, n, "Namespace"@),
        ServicePart::Nothing => false,
    }
}

/// Event `k` is the last text before event `n` that tells `part`, and no service has begun since.
pub open spec fn is_part_text(
    events: Seq<XmlEventView>,
    k: int,
    n: int,
    part: ServicePart,
) -> bool {
    &&& 0 <= k < n
    &&& tells(events, k, part)
    &&& forall|j: int|
        k < j < n ==> !tells(events, j, part) && !opens(#[trigger] events[j], "Service"@)
}

/// `value` is what the last text that tells `part` holds between white space, since the service
/// before event `n` began; nothing if there is no such text.
pub open spec fn is_part_value(
    events: Seq<XmlEventView>,
    n: int,
    part: ServicePart,
    value: Seq<char>,
) -> bool {
    ||| exists|k: int| #[trigger]
        is_part_text(events, k, n, part) && value == text::trim(events[k]->Text_0->Ok_0)
    ||| value.len() == 0 && forall|k: int| !#[trigger] is_part_text(events, k, n, part)
}

/// What a service says of a part is the last text in that part, without white space around it.
pub proof fn law_part_text(events: Seq<XmlEventView>, n: int, part: ServicePart)
    requires
        part !is Nothing,
    ensures
        is_part_value(events, n, part, part_text(events, n, part)),
    decreases n,
{
    if n > 0 {
        law_part_text(events, n - 1, part);
        law_in_service(events, n - 1);
        law_in_part(events, n - 1, "Namespace"@);
        law_in_part(events, n - 1, "XAddr"@);
        law_in_part(events, n - 1, "Version"@);
        if opens(events[n - 1], "Service"@) {
            assert forall|k: int| !#[trigger] is_part_text(events, k, n, part) by {
                if k == n - 1 {
                    assert(!(events[k] is Text));
                }
            }
        } else if tells(events, n - 1, part) {
            assert(is_part_text(events, n - 1, n, part));
        } else {
            assert(part_text(events, n, part) == part_text(events, n - 1, part));
            assert forall|k: int| #[trigger]
                is_part_text(events, k, n, part) implies is_part_text(events, k, n - 1, part) by {
                assert(k != n - 1);
            }
            if exists|k: int| #[trigger] is_part_text(events, k, n - 1, part) && part_text(
                events,
                n,
                part,
            ) == text::trim(events[k]->Text_0->Ok_0) {
                let k = choose|k: int| #[trigger]
                    is_part_text(events, k, n - 1, part) && part_text(events, n, part)
                        == text::trim(events[k]->Text_0->Ok_0);
                assert(is_part_text(events, k, n, part));
            }
        }
    } else {
        assert forall|k: int| !#[trigger] is_part_text(events, k, n, part) by {}
    }
}

/// Event `e` ends a Service element whose namespace and address are both told.
pub open spec fn ends_complete_service(events: Seq<XmlEventView>, e: int) -> bool {
    &&& closes(events[e], "Service"@)
    &&& stands_in_service(events, e)
    &&& part_text(events, e, ServicePart::Namespace).len() > 0
    &&& part_text(events, e, ServicePart::Url).len() > 0
}

/// The services are those of the Service elements among the first `n` events that have a namespace
/// and an address, one for each, in the order of the document: `ends` lists, in rising order,
/// exactly the events that end such an element.
pub open spec fn are_services_in(
    events: Seq<XmlEventView>,
    n: int,
    ends: Seq<int>,
    services: Seq<ServiceInfoView>,
) -> bool {
    &&& ends.len() == services.len()
    &&& forall|a: int, b: int| 0 <= a < b < ends.len() ==> ends[a] < ends[b]
    &&& forall|a: int|
        0 <= a < ends.len() ==> 0 <= #[trigger] ends[a] < n && ends_complete_service(
            events,
            ends[a],
        )
    &&& forall|e: int|
        0 <= e < n && #[trigger] ends_complete_service(events, e) ==> ends.contains(e)
    &&& forall|a: int|
        0 <= a < ends.len() ==> {
            let service = #[trigger] services[a];
            let version = part_text(events, ends[a], ServicePart::Version);
            &&& service.namespace == part_text(events, ends[a], ServicePart::Namespace)
            &&& service.url == part_text(events, ends[a], ServicePart::Url)
            &&& version.len() > 0 ==> service.version == version
            &&& version.len() == 0 ==> service.version == "1.0"@
        }
}

/// Every Service element with a namespace and an address that are not blank gives one service, and
/// nothing else does; the services come in the order of the document, each with what its element
/// says.
pub proof fn law_services(events: Seq<XmlEventView>, n: int)
    ensures
        exists|ends: Seq<int>| #[trigger]
            are_services_in(events, n, ends, services_at(events, n)),
    decreases n,
{
    if n <= 0 {
        assert(are_services_in(events, n, Seq::empty(), services_at(events, n)));
    } else {
        law_services(events, n - 1);
        law_in_service(events, n - 1);
        let before = services_at(events, n - 1);
        let ends = choose|ends: Seq<int>| #[trigger] are_services_in(events, n - 1, ends, before);
        let next = if ends_complete_service(events, n - 1) {
            ends.push(n - 1)
        } else {
            ends
        };
        let services = services_at(events, n);
        assert forall|e: int|
            0 <= e < n && #[trigger] ends_complete_service(events, e) implies next.contains(e) by {
            if e < n - 1 {
                assert(ends.contains(e));
                let a = choose|a: int| 0 <= a < ends.len() && ends[a] == e;
                assert(next[a] == e);
            } else {
                assert(next[ends.len() as int] == e);
            }
        }
        assert forall|a: int| 0 <= a < next.len() implies {
            let service = #[trigger] services[a];
            let version = part_text(events, next[a], ServicePart::Version);
            &&& service.namespace == part_text(events, next[a], ServicePart::Namespace)
            &&& service.url == part_text(events, next[a], ServicePart::Url)
            &&& version.len() > 0 ==> service.version == version
            &&& version.len() == 0 ==> service.version == "1.0"@
        } by {
            if a < ends.len() {
                assert(services[a] == before[a]);
                assert(next[a] == ends[a]);
            }
        }
        assert(are_services_in(events, n, next, services));
    }
}

/// Event `i` is the first of the response that cannot be read, and `m` says so.
pub open spec fn breaks_first_at(events: Seq<XmlEventView>, i: int, m: Seq<char>) -> bool {
    &&& match events[i] {
        XmlEventView::Text(Err(why)) => m == "XML decode error: "@ + why,
        XmlEventView::Failed(why) => m == "XML parse error: "@ + why,
        _ => false,
    }
    &&& forall|k: int| 0 <= k < i ==> !broken(#[trigger] events[k])
}

/// An event that cannot be read.
pub open spec fn broken(event: XmlEventView) -> bool {
    event is Failed || (event is Text && event->Text_0 is Err)
}

/// The first event that cannot be read ends the reading, and tells why.
pub proof fn law_services_failure(events: Seq<XmlEventView>, n: int)
    ensures
        services_failure(events, n) is None <==> forall|k: int|
            0 <= k < n ==> !broken(#[trigger] events[k]),
        forall|i: int, m: Seq<char>|
            0 <= i < n && #[trigger] breaks_first_at(events, i, m) ==> services_failure(events, n)
                == Some(m),
    decreases n,
{
    if n > 0 {
        law_services_failure(events, n - 1);
        if services_failure(events, n - 1) is Some && forall|k: int|
            0 <= k < n ==> !broken(#[trigger] events[k]) {
            assert(forall|k: int| 0 <= k < n - 1 ==> !broken(#[trigger] events[k]));
        }
        assert(services_failure(events, n) is None ==> !broken(events[n - 1]));
        assert(broken(events[n - 1]) <==> service_failure(events[n - 1]) is Some);
        assert forall|i: int, m: Seq<char>|
            0 <= i < n && #[trigger] breaks_first_at(events, i, m) implies services_failure(
            events,
            n,
        ) == Some(m) by {
            if i == n - 1 {
                assert(services_failure(events, n - 1) is None);
            }
        }
    }
}

/// A response that cannot be read to its end is refused with the first reason. Otherwise the
/// services are those that it names; if it names none but speaks of ONVIF and of a host, they are
/// the device and the media service of that host; and if it does not, there are none.
pub proof fn law_services_response(xml: Seq<char>, events: Seq<XmlEventView>)
    ensures
        forall|i: int, m: Seq<char>|
            0 <= i < events.len() && #[trigger] breaks_first_at(events, i, m) ==> services_of(
                xml,
                events,
            ) == Err::<Seq<ServiceInfoView>, InterrogationErrorView>(
                InterrogationErrorView::InvalidResponse(m),
            ),
        (forall|k: int| 0 <= k < events.len() ==> !broken(#[trigger] events[k])) ==> {
            if exists|e: int| 0 <= e < events.len() && #[trigger] ends_complete_service(events, e) {
                &&& services_of(xml, events) is Ok
                &&& exists|ends: Seq<int>| #[trigger]
                    are_services_in(
                        events,
                        events.len() as int,
                        ends,
                        services_of(xml, events)->Ok_0,
                    )
            } else if text::contains(xml, "onvif"@) && base_url_of(xml) is Some {
                let host = base_url_of(xml)->0;
                let services = services_of(xml, events)->Ok_0;
                &&& services_of(xml, events) is Ok
                &&& services.len() == 2
                &&& services[0].namespace == "http://www.onvif.org/ver10/device/wsdl"@
                &&& services[0].url == host + "/onvif/device_service"@
                &&& services[0].version == "1.0"@
                &&& services[1].namespace == "http://www.onvif.org/ver10/media/wsdl"@
                &&& services[1].url == host + "/onvif/media_service"@
                &&& services[1].version == "1.0"@
            } else {
                services_of(xml, events) == Err::<Seq<ServiceInfoView>, InterrogationErrorView>(
                    InterrogationErrorView::ServiceUnavailable(
                        "No services found in GetServices response and unable to construct fallback"@,
                    ),
                )
            }
        },
{
    let n = events.len() as int;
    law_services_failure(events, n);
    law_services(events, n);
    let services = services_at(events, n);
    let ends = choose|ends: Seq<int>| #[trigger] are_services_in(events, n, ends, services);
    if exists|e: int| 0 <= e < n && #[trigger] ends_complete_service(events, e) {
        let e = choose|e: int| 0 <= e < n && #[trigger] ends_complete_service(events, e);
        assert(ends.contains(e));
        if services_failure(events, n) is None {
            assert(services_of(xml, events) == Ok::<Seq<ServiceInfoView>, InterrogationErrorView>(
                services,
            ));
            assert(are_services_in(events, n, ends, services_of(xml, events)->Ok_0));
        }
    } else if services.len() > 0 {
        assert(ends_complete_service(events, ends[0]));
    }
}

/// The address of a host in a line starts with the first `http://`, and ends before the first
/// `/onvif` behind it.
pub proof fn law_line_base_url(line: Seq<char>, start: int, end: int)
    requires
        text::occurs_at(line, "http://"@, start),
        forall|j: int| 0 <= j < start ==> !#[trigger] text::occurs_at(line, "http://"@, j),
        start <= end,
        text::occurs_at(line, "/onvif"@, end),
        forall|j: int| start <= j < end ==> !#[trigger] text::occurs_at(line, "/onvif"@, j),
    ensures
        line_base_url(line) == Some(line.subrange(start, end)),
{
    lemma_found_at(line, "http://"@, 0, start);
    lemma_found_at(line, "/onvif"@, start, end);
}

/// Where `/onvif` does not follow, the address ends before the first white space, `<` or quote; it
/// is of no use if it has a slash at its end or reaches to the end of the line.
pub proof fn law_line_host_only(line: Seq<char>, start: int, end: int)
    requires
        text::occurs_at(line, "http://"@, start),
        forall|j: int| 0 <= j < start ==> !#[trigger] text::occurs_at(line, "http://"@, j),
        forall|j: int| start <= j ==> !#[trigger] text::occurs_at(line, "/onvif"@, j),
        start < end <= line.len(),
        forall|j: int|
            start <= j < end ==> !text::white_space(#[trigger] line[j]) && line[j] != '<' && line[j]
                != '"',
        end < line.len() ==> text::white_space(line[end]) || line[end] == '<' || line[end] == '"',
    ensures
        line_base_url(line) == (if end < line.len() && line[end - 1] != '/' {
            Some(line.subrange(start, end))
        } else {
            None
        }),
{
    lemma_found_at(line, "http://"@, 0, start);
    text::lemma_find(line, "/onvif"@, start);
    lemma_address_ends_at(line, start, end);
}

/// A line without `http://` names no host.
pub proof fn law_line_without_address(line: Seq<char>)
    requires
        !text::contains(line, "http://"@),
    ensures
        line_base_url(line) is None,
{
    text::lemma_find_contains(line, "http://"@);
}

/// Text is found where it first occurs.
proof fn lemma_found_at(s: Seq<char>, p: Seq<char>, from: int, at: int)
    requires
        0 <= from <= at,
        text::occurs_at(s, p, at),
        forall|j: int| from <= j < at ==> !#[trigger] text::occurs_at(s, p, j),
    ensures
        text::find(s, p, from) == Some(at),
{
    text::lemma_find(s, p, from);
    if text::find(s, p, from) is Some {
        let i = text::find(s, p, from)->0;
        assert(text::occurs_at(s, p, i));
    }
}

/// An address ends at the first character that ends it.
proof fn lemma_address_ends_at(s: Seq<char>, from: int, end: int)
    requires
        0 <= from <= end <= s.len(),
        forall|j: int| from <= j < end ==> !ends_address(#[trigger] s[j]),
        end < s.len() ==> ends_address(s[end]),
    ensures
        address_end(s, from) == end,
    decreases end - from,
{
    if from < end {
        lemma_address_ends_at(s, from + 1, end);
    }
}

/// The host of a response is that of the first line that names one.
pub proof fn law_base_url(xml: Seq<char>, k: int)
    requires
        0 <= k < text::lines(xml, 0).len(),
        line_base_url(text::lines(xml, 0)[k]) is Some,
        forall|j: int| 0 <= j < k ==> line_base_url(#[trigger] text::lines(xml, 0)[j]) is None,
    ensures
        base_url_of(xml) == line_base_url(text::lines(xml, 0)[k]),
{
    lemma_first_base_url(text::lines(xml, 0), 0, k);
}

/// A response in which no line names a host names none.
pub proof fn law_no_base_url(xml: Seq<char>)
    requires
        forall|j: int|
            0 <= j < text::lines(xml, 0).len() ==> line_base_url(
                #[trigger] text::lines(xml, 0)[j],
            ) is None,
    ensures
        base_url_of(xml) is None,
{
    lemma_first_base_url(text::lines(xml, 0), 0, text::lines(xml, 0).len() as int);
}

/// Lines that name no host are passed over.
proof fn lemma_first_base_url(lines: Seq<Seq<char>>, from: int, k: int)
    requires
        0 <= from <= k <= lines.len(),
        k < lines.len() ==> line_base_url(lines[k]) is Some,
        forall|j: int| from <= j < k ==> line_base_url(#[trigger] lines[j]) is None,
    ensures
        first_base_url(lines, from) == if k < lines.len() {
            line_base_url(lines[k])
        } else {
            None
        },
    decreases k - from,
{
    if from < k {
        lemma_first_base_url(lines, from + 1, k);
    }
}

// ---------------------------------------------------------------------------------------------
// Reading the response
// ---------------------------------------------------------------------------------------------

/// Whether `name` is `local`, alone or with the prefix of the device service namespace.
fn is_named(name: &str, local: &str) -> (r: bool)
    ensures
        r == names(name@, local@),
{
    text::same(name, local) || text::same(name, "tds:".to_owned().concat(local).as_str())
}

/// The names of a service and of its parts differ.
proof fn lemma_names_differ(name: Seq<char>)
    ensures
        names(name, "Service"@) ==> !names(name, "Namespace"@) && !names(name, "XAddr"@)
            && !names(name, "Version"@),
        names(name, "Namespace"@) ==> !names(name, "XAddr"@) && !names(name, "Version"@),
        names(name, "XAddr"@) ==> !names(name, "Version"@),
{
    reveal_strlit("tds:");
    reveal_strlit("Service");
    reveal_strlit("Namespace");
    reveal_strlit("XAddr");
    reveal_strlit("Version");
    assert(("tds:"@ + "Service"@).len() == 11 && ("tds:"@ + "Namespace"@).len() == 13);
    assert(("tds:"@ + "XAddr"@).len() == 9 && ("tds:"@ + "Version"@).len() == 11);
    assert("Service"@.len() == 7 && "Namespace"@.len() == 9);
    assert("XAddr"@.len() == 5 && "Version"@.len() == 7);
    assert("Service"@[0] != "Version"@[0]);
    assert(("tds:"@ + "Service"@)[4] != ("tds:"@ + "Version"@)[4]);
    assert(("tds:"@ + "XAddr"@)[0] != "Namespace"@[0]);
}

/// What has been read of a response.
struct ServiceReader {
    in_service: bool,
    in_namespace: bool,
    in_xaddr: bool,
    in_version: bool,
    namespace: String,
    url: String,
    version: String,
    services: Vec<ServiceInfo>,
}

impl ServiceReader {
    /// The reader stands before event `n`.
    spec fn at(self, events: Seq<XmlEventView>, n: int) -> bool {
        &&& self.in_service == in_service_at(events, n)
        &&& self.in_namespace == in_part_at(events, n, "Namespace"@)
        &&& self.in_xaddr == in_part_at(events, n, "XAddr"@)
        &&& self.in_version == in_part_at(events, n, "Version"@)
        &&& self.namespace@ == part_text(events, n, ServicePart::Namespace)
        &&& self.url@ == part_text(events, n, ServicePart::Url)
        &&& self.version@ == part_text(events, n, ServicePart::Version)
        &&& device::service_views(self.services@) == services_at(events, n)
    }

    /// Reads a start tag.
    fn start(&mut self, name: &str, Ghost(events): Ghost<Seq<XmlEventView>>, Ghost(n): Ghost<int>)
        requires
            old(self).at(events, n),
            n >= 0,
            events[n] is Start,
            events[n]->Start_name == name@,
        ensures
            final(self).at(events, n + 1),
    {
        proof {
            lemma_names_differ(name@);
        }
        if is_named(name, "Service") {
            self.in_service = true;
            self.namespace = String::new();
            self.url = String::new();
            self.version = String::new();
        } else if is_named(name, "Namespace") && self.in_service {
            self.in_namespace = true;
        } else if is_named(name, "XAddr") && self.in_service {
            self.in_xaddr = true;
        } else if is_named(name, "Version") && self.in_service {
            self.in_version = true;
        }
    }

    /// Reads text.
    fn content(
        &mut self,
        content: &str,
        Ghost(events): Ghost<Seq<XmlEventView>>,
        Ghost(n): Ghost<int>,
    )
        requires
            old(self).at(events, n),
            n >= 0,
            events[n] == XmlEventView::Text(Ok::<Seq<char>, Seq<char>>(content@)),
        ensures
            final(self).at(events, n + 1),
    {
        if self.in_service {
            let t = text::trimmed(content);
            if self.in_namespace {
                self.namespace = t;
            } else if self.in_xaddr {
                self.url = t;
            } else if self.in_version {
                self.version = t;
            }
        }
    }

    /// Reads an end tag.
    fn end(&mut self, name: &str, Ghost(events): Ghost<Seq<XmlEventView>>, Ghost(n): Ghost<int>)
        requires
            old(self).at(events, n),
            n >= 0,
            events[n] == XmlEventView::End(name@),
        ensures
            final(self).at(events, n + 1),
    {
        proof {
            lemma_names_differ(name@);
        }
        if is_named(name, "Service") {
            if self.in_service && !text::is_empty(&self.namespace) && !text::is_empty(&self.url) {
                let version = if text::is_empty(&self.version) {
                    "1.0".to_owned()
                } else {
                    self.version.clone()
                };
                let service = ServiceInfo {
                    namespace: self.namespace.clone(),
                    url: self.url.clone(),
                    version,
                };
                let ghost before = device::service_views(self.services@);
                self.services.push(service);
                assert(device::service_views(self.services@) =~= before.push(service@));
            }
            self.in_service = false;
        } else if is_named(name, "Namespace") {
            self.in_namespace = false;
        } else if is_named(name, "XAddr") {
            self.in_xaddr = false;
        } else if is_named(name, "Version") {
            self.in_version = false;
        }
    }
}

/// Reads the services that the events of a response name.
fn named_services(events: &Vec<XmlEvent>) -> (r: Result<Vec<ServiceInfo>, InterrogationError>)
    ensures
        ({
            let views = xml::event_views(events@);
            let n = views.len() as int;
            services_view(r) == (if services_failure(views, n) is Some {
                Err::<Seq<ServiceInfoView>, InterrogationErrorView>(
                    InterrogationErrorView::InvalidResponse(services_failure(views, n)->0),
                )
            } else {
                Ok(services_at(views, n))
            })
        }),
{
    let ghost views = xml::event_views(events@);
    let mut reader = ServiceReader {
        in_service: false,
        in_namespace: false,
        in_xaddr: false,
        in_version: false,
        namespace: String::new(),
        url: String::new(),
        version: String::new(),
        services: Vec::new(),
    };
    let mut i: usize = 0;
    assert(device::service_views(reader.services@) =~= services_at(views, 0));
    while i < events.len()
        invariant
            views == xml::event_views(events@),
            i <= events.len(),
            services_failure(views, i as int) is None,
            reader.at(views, i as int),
        decreases events.len() - i,
    {
        let ghost n = i as int;
        assert(views[n] == events@[n]@);
        match &events[i] {
            XmlEvent::Start { name, attributes: _ } => {
                reader.start(name, Ghost(views), Ghost(n));
            },
            XmlEvent::Text(Ok(t)) => {
                reader.content(t, Ghost(views), Ghost(n));
            },
            XmlEvent::Text(Err(m)) => {
                proof {
                    lemma_services_failure_lasts(views, n + 1, views.len() as int);
                }
                return Err(
                    InterrogationError::InvalidResponse("XML decode error: ".to_owned().concat(m)),
                );
            },
            XmlEvent::End(name) => {
                reader.end(name, Ghost(views), Ghost(n));
            },
            XmlEvent::Failed(m) => {
                proof {
                    lemma_services_failure_lasts(views, n + 1, views.len() as int);
                }
                return Err(
                    InterrogationError::InvalidResponse("XML parse error: ".to_owned().concat(m)),
                );
            },
            XmlEvent::Other => {},
        }
        i += 1;
    }
    Ok(reader.services)
}

/// The first position at or after `from` that ends an address, or the length of `s`.
fn find_address_end(s: &Vec<char>, from: usize) -> (r: usize)
    requires
        from <= s.len(),
    ensures
        r == address_end(s@, from as int),
        from <= r <= s.len(),
{
    let mut i: usize = from;
    while i < s.len()
        invariant
            from <= i <= s.len(),
            address_end(s@, from as int) == address_end(s@, i as int),
        decreases s.len() - i,
    {
        if text::is_white_space(s[i]) || s[i] == '<' || s[i] == '"' {
            return i;
        }
        i += 1;
    }
    i
}

/// The address of a host that a line names.
fn base_url_from_line(line: &str) -> (r: Option<String>)
    ensures
        xml::text_view(r) == line_base_url(line@),
{
    let chars = text::chars_of(line);
    let scheme = text::chars_of("http://");
    let path = text::chars_of("/onvif");
    proof {
        text::lemma_find(line@, "http://"@, 0);
    }
    match text::find_from(&chars, &scheme, 0) {
        None => None,
        Some(start) => {
            proof {
                text::lemma_find(line@, "/onvif"@, start as int);
            }
            match text::find_from(&chars, &path, start) {
                Some(end) => Some(text::text_of(&chars, start, end)),
                None => {
                    let end = find_address_end(&chars, start);
                    proof {
                        lemma_address_start(line@, start as int);
                    }
                    if end < chars.len() && chars[end - 1] != '/' {
                        Some(text::text_of(&chars, start, end))
                    } else {
                        None
                    }
                },
            }
        },
    }
}

/// An address is longer than nothing.
proof fn lemma_address_start(line: Seq<char>, start: int)
    requires
        text::occurs_at(line, "http://"@, start),
    ensures
        address_end(line, start) > start,
{
    reveal_strlit("http://");
    assert(line.subrange(start, start + "http://"@.len())[0] == 'h');
    assert(line[start] == 'h');
    lemma_address_end_bound(line, start + 1);
}

/// The end of an address is not before its start.
proof fn lemma_address_end_bound(s: Seq<char>, from: int)
    requires
        from <= s.len(),
    ensures
        from <= address_end(s, from) <= s.len(),
    decreases s.len() - from,
{
    if from < s.len() && !ends_address(s[from]) {
        lemma_address_end_bound(s, from + 1);
    }
}

/// Extract base URL from response XML
pub fn extract_base_url_from_response(xml: &str) -> (r: Option<String>)
    ensures
        xml::text_view(r) == base_url_of(xml@),
{
    let lines = text::split_lines(xml);
    let ghost views = text::lines(xml@, 0);
    let mut k: usize = 0;
    while k < lines.len()
        invariant
            k <= lines.len(),
            views == text::texts(lines@),
            views == text::lines(xml@, 0),
            first_base_url(views, 0) == first_base_url(views, k as int),
        decreases lines.len() - k,
    {
        assert(views[k as int] == lines@[k as int]@);
        let found = base_url_from_line(&lines[k]);
        if found.is_some() {
            return found;
        }
        k += 1;
    }
    None
}

/// The services that a GetServices response with these events names.
pub fn services_from_events(xml: &str, events: &Vec<XmlEvent>) -> (r: Result<
    Vec<ServiceInfo>,
    InterrogationError,
>)
    ensures
        services_view(r) == services_of(xml@, xml::event_views(events@)),
{
    let services = match named_services(events) {
        Ok(services) => services,
        Err(e) => {
            return Err(e);
        },
    };
    if services.len() > 0 {
        return Ok(services);
    }
    if text::has(xml, "onvif") {
        if let Some(host) = extract_base_url_from_response(xml) {
            let common = vec![
                ServiceInfo {
                    namespace: "http://www.onvif.org/ver10/device/wsdl".to_owned(),
                    url: host.clone().concat("/onvif/device_service"),
                    version: "1.0".to_owned(),
                },
                ServiceInfo {
                    namespace: "http://www.onvif.org/ver10/media/wsdl".to_owned(),
                    url: host.concat("/onvif/media_service"),
                    version: "1.0".to_owned(),
                },
            ];
            assert(device::service_views(common@) =~= common_services(base_url_of(xml@)->0));
            return Ok(common);
        }
    }
    Err(
        InterrogationError::ServiceUnavailable(
            "No services found in GetServices response and unable to construct fallback".to_owned(),
        ),
    )
}

/// Parse GetServices response
pub fn parse_services_response(xml: &str) -> (r: Result<Vec<ServiceInfo>, InterrogationError>)
    ensures
        services_view(r) == services_of(xml@, xml::borrowed_events(xml@)),
{
    let events = xml::read_borrowed(xml);
    services_from_events(xml, &events)
}

} // verus!
