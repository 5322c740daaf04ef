//! Subnets in CIDR notation and the addresses that are probed in them.

use crate::addr;
use crate::addr::Ipv4Addr;
use crate::discovery::{DiscoveryError, DiscoveryErrorView};
use crate::text;
use vstd::arithmetic::power2;
use vstd::prelude::*;

verus! {

/// The most addresses that are probed in a subnet
pub const MAX_SUBNET_HOSTS: u32 = 1024;

/// The shortest prefix of a subnet that is probed
pub const MIN_PREFIX_LEN: u8 = 16;

/// The longest prefix of a subnet
pub const MAX_PREFIX_LEN: u8 = 32;

// ---------------------------------------------------------------------------------------------
// Addresses of a subnet
// ---------------------------------------------------------------------------------------------

/// How many addresses a subnet with a prefix of this length has.
pub open spec fn block_size(prefix_len: u8) -> int {
    power2::pow2((32 - prefix_len) as nat) as int
}

/// The first address of the subnet that `bits` belongs to.
pub open spec fn network_of(bits: u32, prefix_len: u8) -> int {
    bits - bits as int % block_size(prefix_len)
}

/// How many addresses of a subnet are probed: all but the first and the last one, up to a limit.
pub open spec fn host_count(prefix_len: u8) -> nat {
    if block_size(prefix_len) - 2 <= MAX_SUBNET_HOSTS {
        (block_size(prefix_len) - 2) as nat
    } else {
        MAX_SUBNET_HOSTS as nat
    }
}

/// The addresses that are probed in the subnet of `base`: the address itself if it is alone in its
/// subnet, and otherwise those that follow the first address of the subnet.
pub open spec fn hosts_of(base: Ipv4Addr, prefix_len: u8) -> Seq<Ipv4Addr> {
    if prefix_len == MAX_PREFIX_LEN {
        seq![base]
    } else {
        Seq::new(
            host_count(prefix_len),
            |k: int| Ipv4Addr { bits: (network_of(base.bits, prefix_len) + 1 + k) as u32 },
        )
    }
}

/// The addresses that are probed in the subnet of `base`, or why none is.
pub open spec fn subnet_hosts_of(base: Ipv4Addr, prefix_len: u8) -> Result<
    Seq<Ipv4Addr>,
    DiscoveryErrorView,
> {
    if prefix_len > MAX_PREFIX_LEN {
        Err(
            DiscoveryErrorView::InvalidResponse(
                "Invalid prefix length: "@ + text::decimal(prefix_len as nat),
            ),
        )
    } else if prefix_len < MIN_PREFIX_LEN {
        Err(DiscoveryErrorView::InvalidResponse("Subnet too large (use /16 or smaller)"@))
    } else {
        Ok(hosts_of(base, prefix_len))
    }
}

/// The addresses that are probed in a subnet in CIDR notation, or why none is.
pub open spec fn subnet_of(subnet: Seq<char>) -> Result<Seq<Ipv4Addr>, DiscoveryErrorView> {
    let slash = text::index_of(subnet, '/', 0);
    if slash == subnet.len() || text::index_of(subnet, '/', slash + 1) < subnet.len() {
        Err(DiscoveryErrorView::InvalidResponse("Invalid subnet format: "@ + subnet))
    } else {
        let base = subnet.take(slash);
        let prefix = subnet.skip(slash + 1);
        if addr::ipv4_of(base) is None {
            Err(
                DiscoveryErrorView::InvalidResponse(
                    "Invalid IP address "@ + base + ": invalid IPv4 address syntax"@,
                ),
            )
        } else {
            match text::unsigned_value(prefix) {
                Some(v) if v <= u8::MAX => subnet_hosts_of(addr::ipv4_of(base)->0, v as u8),
                _ => Err(
                    DiscoveryErrorView::InvalidResponse(
                        "Invalid prefix length "@ + prefix + ": "@ + text::parse_u8_error(prefix),
                    ),
                ),
            }
        }
    }
}

/// The view of addresses, or of why there are none.
pub open spec fn hosts_view(r: Result<Vec<Ipv4Addr>, DiscoveryError>) -> Result<
    Seq<Ipv4Addr>,
    DiscoveryErrorView,
> {
    match r {
        Ok(hosts) => Ok(hosts@),
        Err(e) => Err(e@),
    }
}

// ---------------------------------------------------------------------------------------------
// Laws
// ---------------------------------------------------------------------------------------------

/// A subnet fits the address space.
proof fn lemma_network(bits: u32, prefix_len: u8)
    requires
        MIN_PREFIX_LEN <= prefix_len <= MAX_PREFIX_LEN,
    ensures
        1 <= block_size(prefix_len) <= 0x1_0000,
        prefix_len < MAX_PREFIX_LEN ==> block_size(prefix_len) >= 2,
        0 <= network_of(bits, prefix_len) <= bits,
        network_of(bits, prefix_len) % block_size(prefix_len) == 0,
        bits < network_of(bits, prefix_len) + block_size(prefix_len),
        network_of(bits, prefix_len) + block_size(prefix_len) <= 0x1_0000_0000,
{
    let e = (32 - prefix_len) as nat;
    let size = block_size(prefix_len);
    power2::lemma2_to64();
    power2::lemma_pow2_pos(e);
    if e < 16 {
        power2::lemma_pow2_strictly_increases(e, 16);
    }
    if e > 0 {
        power2::lemma_pow2_unfold(e);
        power2::lemma_pow2_pos((e - 1) as nat);
    }
    power2::lemma_pow2_adds(prefix_len as nat, e);
    let count = power2::pow2(prefix_len as nat) as int;
    assert(count * size == 0x1_0000_0000);
    let q = bits as int / size;
    vstd::arithmetic::div_mod::lemma_fundamental_div_mod(bits as int, size);
    vstd::arithmetic::div_mod::lemma_mod_bound(bits as int, size);
    assert(network_of(bits, prefix_len) == size * q);
    vstd::arithmetic::div_mod::lemma_mod_multiples_basic(q, size);
    assert(size * q == q * size) by (nonlinear_arith);
    assert(q < count) by (nonlinear_arith)
        requires
            q * size <= bits,
            bits < 0x1_0000_0000,
            count * size == 0x1_0000_0000,
            size >= 1,
    ;
    assert(q * size + size <= count * size) by (nonlinear_arith)
        requires
            q < count,
            size >= 1,
    ;
    assert(0 <= q * size) by (nonlinear_arith)
        requires
            q >= 0,
            size >= 1,
    ;
}

/// What is probed in a subnet with more than one address belongs to that subnet, is neither its
/// first nor its last address, and comes in ascending order without repetition.
pub proof fn law_subnet_hosts(base: Ipv4Addr, prefix_len: u8, k: int)
    requires
        MIN_PREFIX_LEN <= prefix_len < MAX_PREFIX_LEN,
        0 <= k < hosts_of(base, prefix_len).len(),
    ensures
        ({
            let host = hosts_of(base, prefix_len)[k].bits;
            let network = network_of(base.bits, prefix_len);
            &&& network_of(host, prefix_len) == network
            &&& network < host < network + block_size(prefix_len) - 1
            &&& forall|j: int|
                0 <= j < k ==> #[trigger] hosts_of(base, prefix_len)[j].bits < host
        }),
{
    lemma_network(base.bits, prefix_len);
    let size = block_size(prefix_len);
    let network = network_of(base.bits, prefix_len);
    let host = hosts_of(base, prefix_len)[k].bits;
    assert(host == network + 1 + k);
    vstd::arithmetic::div_mod::lemma_fundamental_div_mod(network, size);
    let q = network / size;
    assert(size * q == q * size) by (nonlinear_arith);
    vstd::arithmetic::div_mod::lemma_fundamental_div_mod_converse(host as int, size, q, 1 + k);
    assert forall|j: int| 0 <= j < k implies #[trigger] hosts_of(base, prefix_len)[j].bits
        < host by {
        assert(hosts_of(base, prefix_len)[j].bits == network + 1 + j);
    }
}

/// No subnet is probed at more than the limit of addresses; a subnet within the limit is probed at
/// every address but its first and its last one.
pub proof fn law_subnet_size(base: Ipv4Addr, prefix_len: u8)
    requires
        MIN_PREFIX_LEN <= prefix_len < MAX_PREFIX_LEN,
    ensures
        hosts_of(base, prefix_len).len() <= MAX_SUBNET_HOSTS,
        block_size(prefix_len) - 2 <= MAX_SUBNET_HOSTS ==> hosts_of(base, prefix_len).len()
            == block_size(prefix_len) - 2,
{
    lemma_network(base.bits, prefix_len);
}

/// What is probed of a subnet, address by address: the addresses that follow the first one, up to
/// the last but one or to 1024 of them. An address that is a subnet of its own is probed itself.
pub proof fn law_hosts_one_by_one(base: Ipv4Addr, prefix_len: u8)
    requires
        16 <= prefix_len <= 32,
    ensures
        prefix_len == 32 ==> hosts_of(base, prefix_len) == seq![base],
        prefix_len < 32 ==> {
            let size = power2::pow2((32 - prefix_len) as nat) as int;
            let hosts = hosts_of(base, prefix_len);
            &&& hosts.len() == (if size - 2 < 1024 {
                size - 2
            } else {
                1024
            })
            &&& forall|k: int|
                0 <= k < hosts.len() ==> (#[trigger] hosts[k]).bits == base.bits as int / size
                    * size + 1 + k
        },
{
    if prefix_len < 32 {
        let size = block_size(prefix_len);
        lemma_network(base.bits, prefix_len);
        vstd::arithmetic::div_mod::lemma_fundamental_div_mod(base.bits as int, size);
        let q = base.bits as int / size;
        assert(size * q == q * size) by (nonlinear_arith);
        assert(network_of(base.bits, prefix_len) == q * size);
    }
}

/// A prefix of 16 to 32 bits is accepted and no other.
pub proof fn law_prefix_bounds(base: Ipv4Addr, prefix_len: u8)
    ensures
        16 <= prefix_len <= 32 ==> subnet_hosts_of(base, prefix_len) == Ok::<
            Seq<Ipv4Addr>,
            DiscoveryErrorView,
        >(hosts_of(base, prefix_len)),
        prefix_len > 32 ==> subnet_hosts_of(base, prefix_len) == Err::<
            Seq<Ipv4Addr>,
            DiscoveryErrorView,
        >(
            DiscoveryErrorView::InvalidResponse(
                "Invalid prefix length: "@ + text::decimal(prefix_len as nat),
            ),
        ),
        prefix_len < 16 ==> subnet_hosts_of(base, prefix_len) == Err::<
            Seq<Ipv4Addr>,
            DiscoveryErrorView,
        >(DiscoveryErrorView::InvalidResponse("Subnet too large (use /16 or smaller)"@)),
{
}

/// A subnet is written as an address, one slash and a number: the hosts are those of that address
/// with a prefix of that length, and each part that is wrong is named.
pub proof fn law_subnet_notation(base: Seq<char>, prefix: Seq<char>)
    requires
        !base.contains('/'),
        !prefix.contains('/'),
    ensures
        ({
            let r = subnet_of(base + seq!['/'] + prefix);
            let v = text::unsigned_value(prefix);
            if addr::ipv4_of(base) is None {
                r == Err::<Seq<Ipv4Addr>, DiscoveryErrorView>(
                    DiscoveryErrorView::InvalidResponse(
                        "Invalid IP address "@ + base + ": invalid IPv4 address syntax"@,
                    ),
                )
            } else if v is Some && v->0 <= 255 {
                r == subnet_hosts_of(addr::ipv4_of(base)->0, v->0 as u8)
            } else {
                r == Err::<Seq<Ipv4Addr>, DiscoveryErrorView>(
                    DiscoveryErrorView::InvalidResponse(
                        "Invalid prefix length "@ + prefix + ": "@ + text::parse_u8_error(prefix),
                    ),
                )
            }
        }),
{
    let s = base + seq!['/'] + prefix;
    let n = base.len() as int;
    text::lemma_index_of(s, '/', 0);
    assert(s[n] == '/');
    let i = text::index_of(s, '/', 0);
    if i < n {
        assert(base.contains(s[i]));
    }
    text::lemma_index_of(s, '/', n + 1);
    let j = text::index_of(s, '/', n + 1);
    if j < s.len() {
        assert(s[j] == prefix[j - n - 1]);
        assert(prefix.contains(prefix[j - n - 1]));
    }
    assert(s.take(n) =~= base);
    assert(s.skip(n + 1) =~= prefix);
}

/// Text with no slash or with more than one is no subnet.
pub proof fn law_not_a_subnet(a: Seq<char>, b: Seq<char>, c: Seq<char>)
    ensures
        !a.contains('/') ==> subnet_of(a) == Err::<Seq<Ipv4Addr>, DiscoveryErrorView>(
            DiscoveryErrorView::InvalidResponse("Invalid subnet format: "@ + a),
        ),
        subnet_of(a + seq!['/'] + b + seq!['/'] + c) == Err::<Seq<Ipv4Addr>, DiscoveryErrorView>(
            DiscoveryErrorView::InvalidResponse(
                "Invalid subnet format: "@ + (a + seq!['/'] + b + seq!['/'] + c),
            ),
        ),
{
    text::lemma_index_of(a, '/', 0);
    if text::index_of(a, '/', 0) < a.len() {
        assert(a.contains(a[text::index_of(a, '/', 0)]));
    }
    let s = a + seq!['/'] + b + seq!['/'] + c;
    assert(s[a.len() as int] == '/');
    assert(s[(a.len() + 1 + b.len()) as int] == '/');
    text::lemma_index_of(s, '/', 0);
    let i = text::index_of(s, '/', 0);
    text::lemma_index_of(s, '/', i + 1);
}

// ---------------------------------------------------------------------------------------------
// Reading a subnet
// ---------------------------------------------------------------------------------------------

/// How many addresses a subnet has.
fn subnet_size(prefix_len: u8) -> (r: u32)
    requires
        MIN_PREFIX_LEN <= prefix_len <= MAX_PREFIX_LEN,
    ensures
        r == block_size(prefix_len),
{
    let shift: u32 = (32 - prefix_len) as u32;
    proof {
        lemma_network(0, prefix_len);
        vstd::bits::lemma_u32_shl_is_mul(1, shift);
    }
    1u32 << shift
}

/// The addresses to probe in the subnet of `base` with a prefix of length `prefix_len`
pub fn subnet_hosts(base: Ipv4Addr, prefix_len: u8) -> (r: Result<Vec<Ipv4Addr>, DiscoveryError>)
    ensures
        hosts_view(r) == subnet_hosts_of(base, prefix_len),
{
    if prefix_len > MAX_PREFIX_LEN {
        return Err(
            DiscoveryError::InvalidResponse(
                "Invalid prefix length: ".to_owned().concat(&text::decimal_text(prefix_len as u64)),
            ),
        );
    }
    if prefix_len < MIN_PREFIX_LEN {
        return Err(
            DiscoveryError::InvalidResponse("Subnet too large (use /16 or smaller)".to_owned()),
        );
    }
    let mut hosts: Vec<Ipv4Addr> = Vec::new();
    if prefix_len == MAX_PREFIX_LEN {
        hosts.push(base);
        assert(hosts@ =~= hosts_of(base, prefix_len));
        return Ok(hosts);
    }
    let size = subnet_size(prefix_len);
    proof {
        lemma_network(base.bits, prefix_len);
    }
    let network: u32 = base.bits - base.bits % size;
    let count: u32 = if size - 2 <= MAX_SUBNET_HOSTS {
        size - 2
    } else {
        MAX_SUBNET_HOSTS
    };
    let mut i: u32 = 0;
    while i < count
        invariant
            MIN_PREFIX_LEN <= prefix_len < MAX_PREFIX_LEN,
            i <= count,
            count == host_count(prefix_len),
            count + 2 <= size,
            network == network_of(base.bits, prefix_len),
            network + size <= 0x1_0000_0000,
            hosts@ == hosts_of(base, prefix_len).take(i as int),
        decreases count - i,
    {
        i += 1;
        hosts.push(Ipv4Addr { bits: network + i });
        assert(hosts@ =~= hosts_of(base, prefix_len).take(i as int));
    }
    assert(hosts@ =~= hosts_of(base, prefix_len));
    Ok(hosts)
}

/// Parse subnet CIDR notation and return list of IP addresses
pub fn parse_subnet(subnet: &str) -> (r: Result<Vec<Ipv4Addr>, DiscoveryError>)
    ensures
        hosts_view(r) == subnet_of(subnet@),
{
    let chars = text::chars_of(subnet);
    let slash = text::index_from(&chars, '/', 0);
    if slash == chars.len() || text::index_from(&chars, '/', slash + 1) < chars.len() {
        return Err(
            DiscoveryError::InvalidResponse("Invalid subnet format: ".to_owned().concat(subnet)),
        );
    }
    let base = text::text_of(&chars, 0, slash);
    let prefix = text::text_of(&chars, slash + 1, chars.len());
    assert(base@ =~= subnet@.take(slash as int));
    assert(prefix@ =~= subnet@.skip(slash + 1));
    let address = match Ipv4Addr::parse(&base) {
        Some(address) => address,
        None => {
            return Err(
                DiscoveryError::InvalidResponse(
                    "Invalid IP address ".to_owned().concat(&base).concat(
                        ": invalid IPv4 address syntax",
                    ),
                ),
            );
        },
    };
    match text::parse_u8(&prefix) {
        Ok(prefix_len) => subnet_hosts(address, prefix_len),
        Err(e) => Err(
            DiscoveryError::InvalidResponse(
                "Invalid prefix length ".to_owned().concat(&prefix).concat(": ").concat(&e),
            ),
        ),
    }
}

} // verus!
