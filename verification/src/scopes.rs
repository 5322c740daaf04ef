//! What the scopes and addresses of a device tell about it.

use crate::addr;
use crate::addr::Ipv4Addr;
use crate::text;
use crate::url_parts;
use crate::xml;
use vstd::prelude::*;

verus! {

// ---------------------------------------------------------------------------------------------
// What a scope tells
// ---------------------------------------------------------------------------------------------

/// What follows `prefix` in `s`, if `s` starts with it.
pub open spec fn after_prefix(s: Seq<char>, prefix: Seq<char>) -> Option<Seq<char>> {
    if prefix.is_prefix_of(s) {
        Some(s.skip(prefix.len() as int))
    } else {
        None
    }
}

/// The value in a scope of another form: the field behind the first `=`, or failing that what
/// stands behind the last `/`.
pub open spec fn scope_value(scope: Seq<char>) -> Seq<char> {
    match text::second_field(scope, '=') {
        Some(value) => value,
        None => text::after_last(scope, '/'),
    }
}

/// The manufacturer that a scope names: as a name, a manufacturer or a company, or as the first
/// part of the hardware.
pub open spec fn scope_manufacturer(scope: Seq<char>) -> Option<Seq<char>> {
    if let Some(name) = after_prefix(scope, "onvif://www.onvif.org/name/"@) {
        Some(name)
    } else if let Some(manufacturer) = after_prefix(scope, "onvif://www.onvif.org/manufacturer/"@) {
        Some(manufacturer)
    } else if let Some(company) = after_prefix(scope, "onvif://www.onvif.org/company/"@) {
        Some(company)
    } else if let Some(hardware) = after_prefix(scope, "onvif://www.onvif.org/hardware/"@) {
        Some(text::before_first(hardware, '/'))
    } else {
        None
    }
}

/// The manufacturer that a scope of another form names.
pub open spec fn scope_vendor(scope: Seq<char>) -> Option<Seq<char>> {
    if text::contains(scope, "manufacturer"@) || text::contains(scope, "vendor"@)
        || text::contains(scope, "company"@) {
        Some(scope_value(scope))
    } else {
        None
    }
}

/// The model that a scope names.
pub open spec fn scope_model(scope: Seq<char>) -> Option<Seq<char>> {
    if let Some(hardware) = after_prefix(scope, "onvif://www.onvif.org/hardware/"@) {
        Some(hardware)
    } else if text::contains(scope, "model"@) {
        Some(scope_value(scope))
    } else {
        None
    }
}

/// The MAC address that a scope names.
pub open spec fn scope_mac(scope: Seq<char>) -> Option<Seq<char>> {
    after_prefix(scope, "onvif://www.onvif.org/MAC/"@)
}

/// The location that a scope names.
pub open spec fn scope_location(scope: Seq<char>) -> Option<Seq<char>> {
    after_prefix(scope, "onvif://www.onvif.org/location/"@)
}

// ---------------------------------------------------------------------------------------------
// What the scopes tell
// ---------------------------------------------------------------------------------------------

/// What the first of the scopes from `k` on tells that tells anything.
pub open spec fn first_told(
    scopes: Seq<Seq<char>>,
    k: int,
    tells: spec_fn(Seq<char>) -> Option<Seq<char>>,
) -> Option<Seq<char>>
    decreases scopes.len() - k,
{
    if k >= scopes.len() {
        None
    } else if tells(scopes[k]) is Some {
        tells(scopes[k])
    } else {
        first_told(scopes, k + 1, tells)
    }
}

/// The manufacturer that the scopes name. A scope of the common form goes before any other.
pub open spec fn manufacturer_of(scopes: Seq<Seq<char>>) -> Seq<char> {
    match first_told(scopes, 0, |scope: Seq<char>| scope_manufacturer(scope)) {
        Some(m) => m,
        None => match first_told(scopes, 0, |scope: Seq<char>| scope_vendor(scope)) {
            Some(m) => m,
            None => "Unknown"@,
        },
    }
}

/// The model that the scopes name.
pub open spec fn model_of(scopes: Seq<Seq<char>>) -> Seq<char> {
    match first_told(scopes, 0, |scope: Seq<char>| scope_model(scope)) {
        Some(m) => m,
        None => "Unknown"@,
    }
}

/// The MAC address that the scopes name.
pub open spec fn mac_of(scopes: Seq<Seq<char>>) -> Option<Seq<char>> {
    first_told(scopes, 0, |scope: Seq<char>| scope_mac(scope))
}

/// The location that the scopes name.
pub open spec fn location_of(scopes: Seq<Seq<char>>) -> Option<Seq<char>> {
    first_told(scopes, 0, |scope: Seq<char>| scope_location(scope))
}

/// What is told is what the first scope tells that tells anything; nothing is told only if none of
/// them does.
pub proof fn law_first_told(
    scopes: Seq<Seq<char>>,
    k: int,
    tells: spec_fn(Seq<char>) -> Option<Seq<char>>,
)
    requires
        0 <= k <= scopes.len(),
    ensures
        match first_told(scopes, k, tells) {
            Some(value) => exists|i: int|
                k <= i < scopes.len() && tells(#[trigger] scopes[i]) == Some(value) && forall|j: int|
                    k <= j < i ==> tells(#[trigger] scopes[j]) is None,
            None => forall|j: int| k <= j < scopes.len() ==> tells(#[trigger] scopes[j]) is None,
        },
    decreases scopes.len() - k,
{
    if k < scopes.len() {
        if tells(scopes[k]) is Some {
            assert(tells(scopes[k]) == first_told(scopes, k, tells));
        } else {
            law_first_told(scopes, k + 1, tells);
            if let Some(value) = first_told(scopes, k + 1, tells) {
                let i = choose|i: int|
                    k + 1 <= i < scopes.len() && tells(#[trigger] scopes[i]) == Some(value)
                        && forall|j: int| k + 1 <= j < i ==> tells(#[trigger] scopes[j]) is None;
                assert forall|j: int| k <= j < i implies tells(#[trigger] scopes[j]) is None by {}
                assert(tells(scopes[i]) == Some(value));
            }
        }
    }
}

/// A scope of the common form tells the manufacturer, wherever it stands among the scopes.
pub proof fn law_common_form_goes_first(scopes: Seq<Seq<char>>, k: int)
    requires
        0 <= k < scopes.len(),
        scope_manufacturer(scopes[k]) is Some,
    ensures
        exists|i: int|
            0 <= i <= k && #[trigger] scope_manufacturer(scopes[i]) == Some(
                manufacturer_of(scopes),
            ),
{
    let named = |scope: Seq<char>| scope_manufacturer(scope);
    law_first_told(scopes, 0, named);
    assert(named(scopes[k]) is Some);
    let value = first_told(scopes, 0, named)->0;
    let i = choose|i: int|
        0 <= i < scopes.len() && named(#[trigger] scopes[i]) == Some(value) && forall|j: int|
            0 <= j < i ==> named(#[trigger] scopes[j]) is None;
    assert(scope_manufacturer(scopes[i]) == Some(manufacturer_of(scopes)));
}

/// The value in a scope of another form.
fn read_value(scope: &str) -> (r: String)
    ensures
        r@ == scope_value(scope@),
{
    match text::field_after(scope, '=') {
        Some(value) => value,
        None => text::tail(scope, '/'),
    }
}

/// The manufacturer that a scope of the common form names.
fn read_manufacturer(scope: &str) -> (r: Option<String>)
    ensures
        xml::text_view(r) == scope_manufacturer(scope@),
{
    if let Some(name) = text::strip_prefix(scope, "onvif://www.onvif.org/name/") {
        return Some(name);
    }
    if let Some(manufacturer) = text::strip_prefix(scope, "onvif://www.onvif.org/manufacturer/") {
        return Some(manufacturer);
    }
    if let Some(company) = text::strip_prefix(scope, "onvif://www.onvif.org/company/") {
        return Some(company);
    }
    if let Some(hardware) = text::strip_prefix(scope, "onvif://www.onvif.org/hardware/") {
        return Some(text::head(&hardware, '/'));
    }
    None
}

/// Extract manufacturer from ONVIF scopes
pub fn extract_manufacturer_from_scopes(scopes: &[String]) -> (r: String)
    ensures
        r@ == manufacturer_of(text::texts(scopes@)),
{
    let ghost views = text::texts(scopes@);
    let ghost named = |scope: Seq<char>| scope_manufacturer(scope);
    let ghost hinted = |scope: Seq<char>| scope_vendor(scope);
    let mut k: usize = 0;
    while k < scopes.len()
        invariant
            k <= scopes.len(),
            views == text::texts(scopes@),
            named == (|scope: Seq<char>| scope_manufacturer(scope)),
            first_told(views, 0, named) == first_told(views, k as int, named),
        decreases scopes.len() - k,
    {
        assert(views[k as int] == scopes@[k as int]@);
        if let Some(manufacturer) = read_manufacturer(&scopes[k]) {
            return manufacturer;
        }
        k += 1;
    }
    k = 0;
    while k < scopes.len()
        invariant
            k <= scopes.len(),
            views == text::texts(scopes@),
            named == (|scope: Seq<char>| scope_manufacturer(scope)),
            hinted == (|scope: Seq<char>| scope_vendor(scope)),
            first_told(views, 0, named) is None,
            first_told(views, 0, hinted) == first_told(views, k as int, hinted),
        decreases scopes.len() - k,
    {
        assert(views[k as int] == scopes@[k as int]@);
        let scope = &scopes[k];
        if text::has(scope, "manufacturer") || text::has(scope, "vendor") || text::has(
            scope,
            "company",
        ) {
            return read_value(scope);
        }
        k += 1;
    }
    "Unknown".to_owned()
}

/// Extract model from ONVIF scopes
pub fn extract_model_from_scopes(scopes: &[String]) -> (r: String)
    ensures
        r@ == model_of(text::texts(scopes@)),
{
    let ghost views = text::texts(scopes@);
    let ghost named = |scope: Seq<char>| scope_model(scope);
    let mut k: usize = 0;
    while k < scopes.len()
        invariant
            k <= scopes.len(),
            views == text::texts(scopes@),
            named == (|scope: Seq<char>| scope_model(scope)),
            first_told(views, 0, named) == first_told(views, k as int, named),
        decreases scopes.len() - k,
    {
        assert(views[k as int] == scopes@[k as int]@);
        let scope = &scopes[k];
        if let Some(hardware) = text::strip_prefix(scope, "onvif://www.onvif.org/hardware/") {
            return hardware;
        }
        if text::has(scope, "model") {
            return read_value(scope);
        }
        k += 1;
    }
    "Unknown".to_owned()
}

/// Extract MAC address from ONVIF scopes
pub fn extract_mac_address_from_scopes(scopes: &[String]) -> (r: Option<String>)
    ensures
        xml::text_view(r) == mac_of(text::texts(scopes@)),
{
    let ghost views = text::texts(scopes@);
    let ghost named = |scope: Seq<char>| scope_mac(scope);
    let mut k: usize = 0;
    while k < scopes.len()
        invariant
            k <= scopes.len(),
            views == text::texts(scopes@),
            named == (|scope: Seq<char>| scope_mac(scope)),
            first_told(views, 0, named) == first_told(views, k as int, named),
        decreases scopes.len() - k,
    {
        assert(views[k as int] == scopes@[k as int]@);
        if let Some(mac) = text::strip_prefix(&scopes[k], "onvif://www.onvif.org/MAC/") {
            return Some(mac);
        }
        k += 1;
    }
    None
}

/// Extract location from ONVIF scopes
pub fn extract_location_from_scopes(scopes: &[String]) -> (r: Option<String>)
    ensures
        xml::text_view(r) == location_of(text::texts(scopes@)),
{
    let ghost views = text::texts(scopes@);
    let ghost named = |scope: Seq<char>| scope_location(scope);
    let mut k: usize = 0;
    while k < scopes.len()
        invariant
            k <= scopes.len(),
            views == text::texts(scopes@),
            named == (|scope: Seq<char>| scope_location(scope)),
            first_told(views, 0, named) == first_told(views, k as int, named),
        decreases scopes.len() - k,
    {
        assert(views[k as int] == scopes@[k as int]@);
        if let Some(location) = text::strip_prefix(&scopes[k], "onvif://www.onvif.org/location/") {
            return Some(location);
        }
        k += 1;
    }
    None
}

// ---------------------------------------------------------------------------------------------
// Addresses
// ---------------------------------------------------------------------------------------------

/// The host in a URL.
pub open spec fn host_in(url: Seq<char>) -> Option<Seq<char>> {
    match url_parts::parsed_url(url) {
        Ok(parts) => parts.host,
        Err(_) => None,
    }
}

/// The IPv4 address that a host is.
pub open spec fn host_address(host: Option<Seq<char>>) -> Option<Ipv4Addr> {
    match host {
        Some(h) => addr::ipv4_of(h),
        None => None,
    }
}

/// The first of the hosts from `k` on that is an IPv4 address.
pub open spec fn first_address(hosts: Seq<Option<Seq<char>>>, k: int) -> Option<Ipv4Addr>
    decreases hosts.len() - k,
{
    if k >= hosts.len() {
        None
    } else if host_address(hosts[k]) is Some {
        host_address(hosts[k])
    } else {
        first_address(hosts, k + 1)
    }
}

/// The views of a row of hosts.
pub open spec fn host_views(hosts: Seq<Option<String>>) -> Seq<Option<Seq<char>>> {
    hosts.map_values(|h: Option<String>| xml::text_view(h))
}

/// The hosts of a row of URLs.
pub open spec fn hosts_in(urls: Seq<Seq<char>>) -> Seq<Option<Seq<char>>> {
    urls.map_values(|url: Seq<char>| host_in(url))
}

/// The first host that is an IPv4 address
pub fn first_ip(hosts: &Vec<Option<String>>) -> (r: Option<Ipv4Addr>)
    ensures
        r == first_address(host_views(hosts@), 0),
{
    let ghost views = host_views(hosts@);
    let mut k: usize = 0;
    while k < hosts.len()
        invariant
            k <= hosts.len(),
            views == host_views(hosts@),
            first_address(views, 0) == first_address(views, k as int),
        decreases hosts.len() - k,
    {
        assert(views[k as int] == xml::text_view(hosts@[k as int]));
        if let Some(host) = &hosts[k] {
            let found = Ipv4Addr::parse(host);
            if found.is_some() {
                return found;
            }
        }
        k += 1;
    }
    None
}

/// Extract IP address from XAddrs. A host that is an IPv6 address stands in brackets in a URL, and
/// is passed over like a name.
pub fn extract_ip_from_xaddrs(x_addrs: &[String]) -> (r: Option<Ipv4Addr>)
    ensures
        r == first_address(hosts_in(text::texts(x_addrs@)), 0),
{
    let ghost views = hosts_in(text::texts(x_addrs@));
    let mut hosts: Vec<Option<String>> = Vec::new();
    let mut k: usize = 0;
    while k < x_addrs.len()
        invariant
            k <= x_addrs.len(),
            views == hosts_in(text::texts(x_addrs@)),
            host_views(hosts@) == views.take(k as int),
        decreases x_addrs.len() - k,
    {
        let host = match url_parts::parse_url(&x_addrs[k]) {
            Ok(parts) => parts.host,
            Err(_) => None,
        };
        assert(views[k as int] == host_in(x_addrs@[k as int]@));
        assert(views[k as int] == xml::text_view(host));
        let ghost before = host_views(hosts@);
        hosts.push(host);
        assert(host_views(hosts@) =~= before.push(xml::text_view(host)));
        k += 1;
    }
    assert(views.take(views.len() as int) =~= views);
    first_ip(&hosts)
}

// ---------------------------------------------------------------------------------------------
// Laws
// ---------------------------------------------------------------------------------------------

/// Text that differs from a prefix somewhere does not start with it.
proof fn lemma_not_prefix(prefix: Seq<char>, s: Seq<char>, i: int)
    requires
        0 <= i < prefix.len(),
        i < s.len(),
        s[i] != prefix[i],
    ensures
        after_prefix(s, prefix) is None,
{
    if prefix.is_prefix_of(s) {
        assert(s.subrange(0, prefix.len() as int)[i] == prefix[i]);
    }
}

/// What follows a prefix is all of the rest, unchanged; text that does not start with the prefix
/// has nothing behind it.
pub proof fn law_after_prefix(prefix: Seq<char>, x: Seq<char>, s: Seq<char>)
    ensures
        after_prefix(prefix + x, prefix) == Some(x),
        after_prefix(s, prefix) matches Some(rest) ==> s == prefix + rest,
{
    assert((prefix + x).skip(prefix.len() as int) =~= x);
    assert(prefix.is_prefix_of(prefix + x));
    if let Some(rest) = after_prefix(s, prefix) {
        assert(s =~= prefix + rest);
    }
}

/// Whatever text follows the name, manufacturer or company part of a scope is the manufacturer,
/// whole; of what follows the hardware part it is all before the first slash.
pub proof fn law_scope_manufacturer(x: Seq<char>, y: Seq<char>)
    ensures
        scope_manufacturer("onvif://www.onvif.org/name/"@ + x) == Some(x),
        scope_manufacturer("onvif://www.onvif.org/manufacturer/"@ + x) == Some(x),
        scope_manufacturer("onvif://www.onvif.org/company/"@ + x) == Some(x),
        !x.contains('/') ==> scope_manufacturer("onvif://www.onvif.org/hardware/"@ + x) == Some(x),
        !x.contains('/') ==> scope_manufacturer(
            "onvif://www.onvif.org/hardware/"@ + (x + seq!['/'] + y),
        ) == Some(x),
{
    let n = "onvif://www.onvif.org/name/"@;
    let m = "onvif://www.onvif.org/manufacturer/"@;
    let c = "onvif://www.onvif.org/company/"@;
    let h = "onvif://www.onvif.org/hardware/"@;
    reveal_strlit("onvif://www.onvif.org/name/");
    reveal_strlit("onvif://www.onvif.org/manufacturer/");
    reveal_strlit("onvif://www.onvif.org/company/");
    reveal_strlit("onvif://www.onvif.org/hardware/");
    let z = x + seq!['/'] + y;
    law_after_prefix(n, x, x);
    law_after_prefix(m, x, x);
    law_after_prefix(c, x, x);
    law_after_prefix(h, x, x);
    law_after_prefix(h, z, z);
    assert((m + x)[22] == 'm' && (c + x)[22] == 'c' && (h + x)[22] == 'h' && (h + z)[22] == 'h');
    lemma_not_prefix(n, m + x, 22);
    lemma_not_prefix(n, c + x, 22);
    lemma_not_prefix(m, c + x, 22);
    lemma_not_prefix(n, h + x, 22);
    lemma_not_prefix(m, h + x, 22);
    lemma_not_prefix(c, h + x, 22);
    lemma_not_prefix(n, h + z, 22);
    lemma_not_prefix(m, h + z, 22);
    lemma_not_prefix(c, h + z, 22);
    if !x.contains('/') {
        text::law_before_first(x, '/', y);
    }
}

/// A scope that does not start like that names no manufacturer in the common form.
pub proof fn law_scope_without_manufacturer(scope: Seq<char>)
    requires
        !"onvif://www.onvif.org/name/"@.is_prefix_of(scope),
        !"onvif://www.onvif.org/manufacturer/"@.is_prefix_of(scope),
        !"onvif://www.onvif.org/company/"@.is_prefix_of(scope),
        !"onvif://www.onvif.org/hardware/"@.is_prefix_of(scope),
    ensures
        scope_manufacturer(scope) is None,
{
}

/// A scope of another form names a manufacturer exactly if it speaks of a manufacturer, a vendor or
/// a company.
pub proof fn law_scope_vendor(scope: Seq<char>)
    ensures
        scope_vendor(scope) == (if text::contains(scope, "manufacturer"@) || text::contains(
            scope,
            "vendor"@,
        ) || text::contains(scope, "company"@) {
            Some(scope_value(scope))
        } else {
            None
        }),
{
}

/// Whatever text follows the hardware part of a scope is the model, whole. A scope of another form
/// names one exactly if it speaks of a model.
pub proof fn law_scope_model(x: Seq<char>, scope: Seq<char>)
    ensures
        scope_model("onvif://www.onvif.org/hardware/"@ + x) == Some(x),
        !"onvif://www.onvif.org/hardware/"@.is_prefix_of(scope) ==> scope_model(scope) == (
        if text::contains(scope, "model"@) {
            Some(scope_value(scope))
        } else {
            None
        }),
{
    law_after_prefix("onvif://www.onvif.org/hardware/"@, x, x);
}

/// Whatever text follows the MAC part of a scope is the MAC address, and the location likewise; no
/// other scope names one.
pub proof fn law_scope_mac_and_location(x: Seq<char>, scope: Seq<char>)
    ensures
        scope_mac("onvif://www.onvif.org/MAC/"@ + x) == Some(x),
        scope_location("onvif://www.onvif.org/location/"@ + x) == Some(x),
        !"onvif://www.onvif.org/MAC/"@.is_prefix_of(scope) ==> scope_mac(scope) is None,
        !"onvif://www.onvif.org/location/"@.is_prefix_of(scope) ==> scope_location(scope) is None,
{
    law_after_prefix("onvif://www.onvif.org/MAC/"@, x, x);
    law_after_prefix("onvif://www.onvif.org/location/"@, x, x);
}

/// The value in a scope of another form is what stands between the first equals sign and the next,
/// if there is any; failing that what stands behind the last slash, or all of it.
pub proof fn law_scope_value(a: Seq<char>, b: Seq<char>, rest: Seq<char>)
    ensures
        !a.contains('=') && !b.contains('=') ==> {
            &&& scope_value(a + seq!['='] + b) == b
            &&& scope_value(a + seq!['='] + b + seq!['='] + rest) == b
        },
        !a.contains('=') && !b.contains('=') && !b.contains('/') ==> {
            &&& scope_value(a + seq!['/'] + b) == b
            &&& scope_value(b) == b
        },
{
    if !a.contains('=') && !b.contains('=') {
        text::law_second_field(a, '=', b, rest);
        if !b.contains('/') {
            let s = a + seq!['/'] + b;
            text::lemma_contains_char(a, seq!['/'], '=');
            text::lemma_contains_char(a + seq!['/'], b, '=');
            assert(!seq!['/'].contains('='));
            text::law_second_field(s, '=', b, rest);
            text::law_second_field(b, '=', b, rest);
            text::law_after_last(a, '/', b);
        }
    }
}

/// The manufacturer is what the first scope of the common form tells; failing that what the first
/// other scope tells that tells one; failing that it is unknown.
pub proof fn law_manufacturer(scopes: Seq<Seq<char>>, k: int)
    requires
        0 <= k < scopes.len(),
    ensures
        scope_manufacturer(scopes[k]) is Some && (forall|j: int|
            0 <= j < k ==> scope_manufacturer(#[trigger] scopes[j]) is None) ==> manufacturer_of(
            scopes,
        ) == scope_manufacturer(scopes[k])->0,
        (forall|j: int| 0 <= j < scopes.len() ==> scope_manufacturer(#[trigger] scopes[j]) is None)
            && scope_vendor(scopes[k]) is Some && (forall|j: int|
            0 <= j < k ==> scope_vendor(#[trigger] scopes[j]) is None) ==> manufacturer_of(scopes)
            == scope_vendor(scopes[k])->0,
{
    let named = |scope: Seq<char>| scope_manufacturer(scope);
    let hinted = |scope: Seq<char>| scope_vendor(scope);
    if scope_manufacturer(scopes[k]) is Some && forall|j: int|
        0 <= j < k ==> scope_manufacturer(#[trigger] scopes[j]) is None {
        lemma_first_told_at(scopes, 0, k, named);
    }
    if forall|j: int| 0 <= j < scopes.len() ==> scope_manufacturer(#[trigger] scopes[j]) is None {
        lemma_nothing_told(scopes, 0, named);
        if scope_vendor(scopes[k]) is Some && forall|j: int|
            0 <= j < k ==> scope_vendor(#[trigger] scopes[j]) is None {
            lemma_first_told_at(scopes, 0, k, hinted);
        }
    }
}

/// The model, the MAC address and the location are what the first scope tells that tells one.
pub proof fn law_model_mac_and_location(scopes: Seq<Seq<char>>, k: int)
    requires
        0 <= k < scopes.len(),
    ensures
        scope_model(scopes[k]) is Some && (forall|j: int|
            0 <= j < k ==> scope_model(#[trigger] scopes[j]) is None) ==> model_of(scopes)
            == scope_model(scopes[k])->0,
        scope_mac(scopes[k]) is Some && (forall|j: int|
            0 <= j < k ==> scope_mac(#[trigger] scopes[j]) is None) ==> mac_of(scopes)
            == scope_mac(scopes[k]),
        scope_location(scopes[k]) is Some && (forall|j: int|
            0 <= j < k ==> scope_location(#[trigger] scopes[j]) is None) ==> location_of(scopes)
            == scope_location(scopes[k]),
{
    if scope_model(scopes[k]) is Some && forall|j: int|
        0 <= j < k ==> scope_model(#[trigger] scopes[j]) is None {
        lemma_first_told_at(scopes, 0, k, |scope: Seq<char>| scope_model(scope));
    }
    if scope_mac(scopes[k]) is Some && forall|j: int|
        0 <= j < k ==> scope_mac(#[trigger] scopes[j]) is None {
        lemma_first_told_at(scopes, 0, k, |scope: Seq<char>| scope_mac(scope));
    }
    if scope_location(scopes[k]) is Some && forall|j: int|
        0 <= j < k ==> scope_location(#[trigger] scopes[j]) is None {
        lemma_first_told_at(scopes, 0, k, |scope: Seq<char>| scope_location(scope));
    }
}

/// What no scope tells is unknown.
pub proof fn law_untold_is_unknown(scopes: Seq<Seq<char>>)
    ensures
        (forall|j: int|
            0 <= j < scopes.len() ==> scope_manufacturer(#[trigger] scopes[j]) is None
                && scope_vendor(scopes[j]) is None) ==> manufacturer_of(scopes) == "Unknown"@,
        (forall|j: int| 0 <= j < scopes.len() ==> scope_model(#[trigger] scopes[j]) is None)
            ==> model_of(scopes) == "Unknown"@,
        (forall|j: int| 0 <= j < scopes.len() ==> scope_mac(#[trigger] scopes[j]) is None)
            ==> mac_of(scopes) is None,
        (forall|j: int| 0 <= j < scopes.len() ==> scope_location(#[trigger] scopes[j]) is None)
            ==> location_of(scopes) is None,
{
    if forall|j: int|
        0 <= j < scopes.len() ==> scope_manufacturer(#[trigger] scopes[j]) is None && scope_vendor(
            scopes[j],
        ) is None {
        lemma_nothing_told(scopes, 0, |scope: Seq<char>| scope_manufacturer(scope));
        lemma_nothing_told(scopes, 0, |scope: Seq<char>| scope_vendor(scope));
    }
    if forall|j: int| 0 <= j < scopes.len() ==> scope_model(#[trigger] scopes[j]) is None {
        lemma_nothing_told(scopes, 0, |scope: Seq<char>| scope_model(scope));
    }
    if forall|j: int| 0 <= j < scopes.len() ==> scope_mac(#[trigger] scopes[j]) is None {
        lemma_nothing_told(scopes, 0, |scope: Seq<char>| scope_mac(scope));
    }
    if forall|j: int| 0 <= j < scopes.len() ==> scope_location(#[trigger] scopes[j]) is None {
        lemma_nothing_told(scopes, 0, |scope: Seq<char>| scope_location(scope));
    }
}

/// The first scope that tells anything decides.
proof fn lemma_first_told_at(
    scopes: Seq<Seq<char>>,
    from: int,
    k: int,
    tells: spec_fn(Seq<char>) -> Option<Seq<char>>,
)
    requires
        0 <= from <= k < scopes.len(),
        tells(scopes[k]) is Some,
        forall|j: int| from <= j < k ==> tells(#[trigger] scopes[j]) is None,
    ensures
        first_told(scopes, from, tells) == tells(scopes[k]),
    decreases k - from,
{
    if from < k {
        lemma_first_told_at(scopes, from + 1, k, tells);
    }
}

/// Where no scope tells anything, nothing is told.
proof fn lemma_nothing_told(
    scopes: Seq<Seq<char>>,
    from: int,
    tells: spec_fn(Seq<char>) -> Option<Seq<char>>,
)
    requires
        0 <= from <= scopes.len(),
        forall|j: int| from <= j < scopes.len() ==> tells(#[trigger] scopes[j]) is None,
    ensures
        first_told(scopes, from, tells) is None,
    decreases scopes.len() - from,
{
    if from < scopes.len() {
        lemma_nothing_told(scopes, from + 1, tells);
    }
}

/// The address of a device is the first host among its addresses that is an IPv4 address; there is
/// none exactly if no host is.
pub proof fn law_first_address(hosts: Seq<Option<Seq<char>>>, k: int)
    requires
        0 <= k <= hosts.len(),
        forall|j: int|
            0 <= j < k ==> (#[trigger] hosts[j]) is None || addr::ipv4_of(hosts[j]->0) is None,
        k < hosts.len() ==> hosts[k] is Some && addr::ipv4_of(hosts[k]->0) is Some,
    ensures
        first_address(hosts, 0) == (if k < hosts.len() {
            addr::ipv4_of(hosts[k]->0)
        } else {
            None
        }),
{
    lemma_first_address(hosts, 0, k);
}

/// Hosts that are no IPv4 address are passed over.
proof fn lemma_first_address(hosts: Seq<Option<Seq<char>>>, from: int, k: int)
    requires
        0 <= from <= k <= hosts.len(),
        forall|j: int| from <= j < k ==> host_address(#[trigger] hosts[j]) is None,
        k < hosts.len() ==> host_address(hosts[k]) is Some,
    ensures
        first_address(hosts, from) == (if k < hosts.len() {
            host_address(hosts[k])
        } else {
            None
        }),
    decreases k - from,
{
    if from < k {
        lemma_first_address(hosts, from + 1, k);
    }
}

/// Each URL has its own host, or none if it cannot be read.
pub proof fn law_hosts(urls: Seq<Seq<char>>)
    ensures
        hosts_in(urls).len() == urls.len(),
        forall|k: int|
            0 <= k < urls.len() ==> #[trigger] hosts_in(urls)[k] == (match url_parts::parsed_url(
                urls[k],
            ) {
                Ok(parts) => parts.host,
                Err(_) => None,
            }),
{
}

} // verus!
