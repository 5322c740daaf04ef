//! Which probes a discovery sends, in which order and with which pauses.

use crate::addr::Ipv4Addr;
use crate::discovery;
use crate::discovery::{DiscoveryOptions, DiscoveryOptionsView, WS_DISCOVERY_MULTICAST_ADDR};
use crate::subnet;
use crate::text;
use vstd::prelude::*;

verus! {

/// The bits of the broadcast address, 255.255.255.255
pub const BROADCAST_ADDR: u32 = 0xFFFF_FFFF;

/// Pause between two multicast probes, in milliseconds
pub const MULTICAST_PAUSE: u64 = 100;

/// Pause after every tenth probe of a subnet, in milliseconds
pub const SUBNET_PAUSE: u64 = 10;

/// Why a probe is sent.
#[derive(Debug, Clone, Copy, PartialEq, Eq, Structural)]
pub enum ProbeTarget {
    /// The multicast group, with the number of the probe
    Multicast(u32),
    /// A host of an additional subnet
    Subnet,
    /// All hosts of the local network
    Broadcast,
}

/// A step of a discovery, up to the collection of the answers.
#[derive(Debug)]
pub enum ProbeStep {
    /// Send a probe to an address
    Send { address: Ipv4Addr, target: ProbeTarget },
    /// Wait for a number of milliseconds
    Pause(u64),
    /// Note an error
    Report(String),
}

/// The view of a `ProbeStep`.
pub enum ProbeStepView {
    Send { address: Ipv4Addr, target: ProbeTarget },
    Pause(u64),
    Report(Seq<char>),
}

impl View for ProbeStep {
    type V = ProbeStepView;

    open spec fn view(&self) -> ProbeStepView {
        match self {
            ProbeStep::Send { address, target } => ProbeStepView::Send {
                address: *address,
                target: *target,
            },
            ProbeStep::Pause(millis) => ProbeStepView::Pause(*millis),
            ProbeStep::Report(message) => ProbeStepView::Report(message@),
        }
    }
}

/// The views of a row of steps.
pub open spec fn step_views(steps: Seq<ProbeStep>) -> Seq<ProbeStepView> {
    steps.map_values(|s: ProbeStep| s@)
}

// ---------------------------------------------------------------------------------------------
// The plan
// ---------------------------------------------------------------------------------------------

/// A multicast probe.
pub open spec fn multicast_step(number: u32) -> ProbeStepView {
    ProbeStepView::Send {
        address: Ipv4Addr { bits: WS_DISCOVERY_MULTICAST_ADDR },
        target: ProbeTarget::Multicast(number),
    }
}

/// Three multicast probes, with pauses between them.
pub open spec fn multicast_steps() -> Seq<ProbeStepView> {
    seq![
        multicast_step(1),
        ProbeStepView::Pause(MULTICAST_PAUSE),
        multicast_step(2),
        ProbeStepView::Pause(MULTICAST_PAUSE),
        multicast_step(3),
    ]
}

/// A probe to each of the hosts of a subnet. A pause follows every tenth one after the first.
pub open spec fn host_steps(hosts: Seq<Ipv4Addr>) -> Seq<ProbeStepView>
    decreases hosts.len(),
{
    if hosts.len() == 0 {
        Seq::empty()
    } else {
        let i = hosts.len() - 1;
        let sent = host_steps(hosts.drop_last()).push(
            ProbeStepView::Send { address: hosts.last(), target: ProbeTarget::Subnet },
        );
        if i > 0 && i % 10 == 0 {
            sent.push(ProbeStepView::Pause(SUBNET_PAUSE))
        } else {
            sent
        }
    }
}

/// The probes to a subnet, or a note why it cannot be probed.
pub open spec fn subnet_steps(subnet: Seq<char>) -> Seq<ProbeStepView> {
    match subnet::subnet_of(subnet) {
        Ok(hosts) => host_steps(hosts),
        Err(e) => seq![
            ProbeStepView::Report(
                "Failed to probe subnet "@ + subnet + ": "@ + discovery::discovery_message(e),
            ),
        ],
    }
}

/// The probes to a row of subnets.
pub open spec fn subnets_steps(subnets: Seq<Seq<char>>) -> Seq<ProbeStepView>
    decreases subnets.len(),
{
    if subnets.len() == 0 {
        Seq::empty()
    } else {
        subnets_steps(subnets.drop_last()) + subnet_steps(subnets.last())
    }
}

/// The broadcast probe, if it is wanted.
pub open spec fn broadcast_steps(use_broadcast: bool) -> Seq<ProbeStepView> {
    if use_broadcast {
        seq![
            ProbeStepView::Send {
                address: Ipv4Addr { bits: BROADCAST_ADDR },
                target: ProbeTarget::Broadcast,
            },
        ]
    } else {
        Seq::empty()
    }
}

/// The steps of a discovery: the multicast group, then the subnets, then all hosts.
pub open spec fn plan_of(options: DiscoveryOptionsView) -> Seq<ProbeStepView> {
    multicast_steps() + subnets_steps(options.additional_subnets) + broadcast_steps(
        options.use_broadcast,
    )
}

// ---------------------------------------------------------------------------------------------
// Laws
// ---------------------------------------------------------------------------------------------

/// Every host of a subnet is probed.
pub proof fn law_every_host_is_probed(hosts: Seq<Ipv4Addr>, k: int)
    requires
        0 <= k < hosts.len(),
    ensures
        host_steps(hosts).contains(
            ProbeStepView::Send { address: hosts[k], target: ProbeTarget::Subnet },
        ),
    decreases hosts.len(),
{
    let step = ProbeStepView::Send { address: hosts[k], target: ProbeTarget::Subnet };
    let before = host_steps(hosts.drop_last());
    let sent = before.push(
        ProbeStepView::Send { address: hosts.last(), target: ProbeTarget::Subnet },
    );
    if k < hosts.len() - 1 {
        law_every_host_is_probed(hosts.drop_last(), k);
        let i = choose|i: int| 0 <= i < before.len() && before[i] == step;
        assert(sent[i] == step);
        assert(host_steps(hosts)[i] == step);
    } else {
        assert(sent[before.len() as int] == step);
        assert(host_steps(hosts)[before.len() as int] == step);
    }
}

/// The steps for a subnet are among those for a row of subnets.
proof fn lemma_subnet_steps_included(subnets: Seq<Seq<char>>, k: int, step: ProbeStepView)
    requires
        0 <= k < subnets.len(),
        subnet_steps(subnets[k]).contains(step),
    ensures
        subnets_steps(subnets).contains(step),
    decreases subnets.len(),
{
    let before = subnets_steps(subnets.drop_last());
    let last = subnet_steps(subnets.last());
    if k < subnets.len() - 1 {
        lemma_subnet_steps_included(subnets.drop_last(), k, step);
        let i = choose|i: int| 0 <= i < before.len() && before[i] == step;
        assert((before + last)[i] == step);
    } else {
        let i = choose|i: int| 0 <= i < last.len() && last[i] == step;
        assert((before + last)[before.len() + i] == step);
    }
}

/// A discovery probes every host of every additional subnet that it can read.
pub proof fn law_every_subnet_is_probed(options: DiscoveryOptionsView, k: int, h: int)
    requires
        0 <= k < options.additional_subnets.len(),
        subnet::subnet_of(options.additional_subnets[k]) is Ok,
        0 <= h < subnet::subnet_of(options.additional_subnets[k])->Ok_0.len(),
    ensures
        plan_of(options).contains(
            ProbeStepView::Send {
                address: subnet::subnet_of(options.additional_subnets[k])->Ok_0[h],
                target: ProbeTarget::Subnet,
            },
        ),
{
    let hosts = subnet::subnet_of(options.additional_subnets[k])->Ok_0;
    let step = ProbeStepView::Send { address: hosts[h], target: ProbeTarget::Subnet };
    law_every_host_is_probed(hosts, h);
    lemma_subnet_steps_included(options.additional_subnets, k, step);
    let first = multicast_steps();
    let middle = subnets_steps(options.additional_subnets);
    let i = choose|i: int| 0 <= i < middle.len() && middle[i] == step;
    assert(plan_of(options)[first.len() + i] == step);
}

/// A discovery starts with three multicast probes, whatever the options.
pub proof fn law_multicast_first(options: DiscoveryOptionsView)
    ensures
        multicast_steps().is_prefix_of(plan_of(options)),
{
}

/// A discovery ends with a broadcast probe exactly if that is wanted.
pub proof fn law_broadcast_last(options: DiscoveryOptionsView)
    ensures
        options.use_broadcast ==> plan_of(options).last() == (ProbeStepView::Send {
            address: Ipv4Addr { bits: BROADCAST_ADDR },
            target: ProbeTarget::Broadcast,
        }),
        !options.use_broadcast ==> plan_of(options) == multicast_steps() + subnets_steps(
            options.additional_subnets,
        ),
{
}

/// How many pauses there are before the probe to host `k`.
pub open spec fn pauses_before(k: int) -> int {
    if k > 0 {
        (k - 1) / 10
    } else {
        0
    }
}

/// The probe to host `k` is followed by a pause: every tenth is, but not the first.
pub open spec fn pauses_after(k: int) -> bool {
    k > 0 && k % 10 == 0
}

/// Every host is probed once, in order, and a pause of 10 milliseconds follows the probes to the
/// hosts 10, 20 and so on, counted from zero; there are no other steps.
pub proof fn law_host_steps(hosts: Seq<Ipv4Addr>)
    ensures
        ({
            let steps = host_steps(hosts);
            let n = hosts.len() as int;
            &&& steps.len() == n + pauses_before(n)
            &&& forall|k: int|
                0 <= k < n ==> steps[k + pauses_before(k)] == (ProbeStepView::Send {
                    address: #[trigger] hosts[k],
                    target: ProbeTarget::Subnet,
                })
            &&& forall|k: int|
                0 <= k < n && #[trigger] pauses_after(k) ==> steps[k + pauses_before(k) + 1]
                    == ProbeStepView::Pause(10)
        }),
    decreases hosts.len(),
{
    if hosts.len() > 0 {
        let before = hosts.drop_last();
        let n = before.len() as int;
        law_host_steps(before);
        let steps = host_steps(hosts);
        let earlier = host_steps(before);
        assert(forall|i: int| 0 <= i < earlier.len() ==> steps[i] == earlier[i]);
        assert forall|k: int| 0 <= k < hosts.len() implies steps[k + pauses_before(k)] == (
        ProbeStepView::Send { address: #[trigger] hosts[k], target: ProbeTarget::Subnet }) by {
            if k < n {
                assert(before[k] == hosts[k]);
                assert(k + pauses_before(k) < n + pauses_before(n));
            }
        }
        assert forall|k: int| 0 <= k < hosts.len() && #[trigger] pauses_after(k) implies steps[k
            + pauses_before(k) + 1] == ProbeStepView::Pause(10) by {
            if k < n {
                assert(k + pauses_before(k) + 1 < n + pauses_before(n));
            }
        }
        assert(steps.len() == hosts.len() + pauses_before(hosts.len() as int));
    }
}

/// What is sent to one row of subnets does not depend on another, and the rows follow each other.
/// A subnet that can be read is probed host by host; for any other there is one note, of which it
/// is and what is wrong with it.
pub proof fn law_subnets_one_by_one(a: Seq<Seq<char>>, b: Seq<Seq<char>>, subnet: Seq<char>)
    ensures
        subnets_steps(a + b) == subnets_steps(a) + subnets_steps(b),
        match subnet::subnet_of(subnet) {
            Ok(hosts) => subnets_steps(seq![subnet]) == host_steps(hosts),
            Err(e) => {
                let steps = subnets_steps(seq![subnet]);
                &&& steps.len() == 1
                &&& steps[0] == ProbeStepView::Report(
                    "Failed to probe subnet "@ + subnet + ": "@ + discovery::discovery_message(e),
                )
            },
        },
    decreases b.len(),
{
    let one = seq![subnet];
    assert(one.drop_last() =~= Seq::empty());
    assert(one.last() == subnet);
    assert(subnets_steps(one.drop_last()) =~= Seq::empty());
    assert(subnets_steps(one) =~= subnet_steps(subnet));
    if b.len() > 0 {
        law_subnets_one_by_one(a, b.drop_last(), subnet);
        assert((a + b).drop_last() =~= a + b.drop_last());
        assert((a + b).last() == b.last());
    } else {
        assert(a + b =~= a);
    }
    assert(subnets_steps(a + b) =~= subnets_steps(a) + subnets_steps(b));
}

/// The steps of a discovery: three probes to 239.255.255.250 with 100 milliseconds between them,
/// then the subnets in their order, then one probe to 255.255.255.255 if it is wanted.
pub proof fn law_plan(options: DiscoveryOptionsView)
    ensures
        ({
            let plan = plan_of(options);
            let group = Ipv4Addr { bits: 0xEFFF_FFFA };
            let middle = subnets_steps(options.additional_subnets);
            let end = 5 + middle.len();
            &&& plan[0] == ProbeStepView::Send { address: group, target: ProbeTarget::Multicast(1) }
            &&& plan[1] == ProbeStepView::Pause(100)
            &&& plan[2] == ProbeStepView::Send { address: group, target: ProbeTarget::Multicast(2) }
            &&& plan[3] == ProbeStepView::Pause(100)
            &&& plan[4] == ProbeStepView::Send { address: group, target: ProbeTarget::Multicast(3) }
            &&& plan.subrange(5, end as int) == middle
            &&& options.use_broadcast ==> plan.len() == end + 1 && plan[end as int]
                == ProbeStepView::Send {
                address: Ipv4Addr { bits: 0xFFFF_FFFF },
                target: ProbeTarget::Broadcast,
            }
            &&& !options.use_broadcast ==> plan.len() == end
        }),
{
    let middle = subnets_steps(options.additional_subnets);
    assert(plan_of(options).subrange(5, (5 + middle.len()) as int) =~= middle);
}

// ---------------------------------------------------------------------------------------------
// Planning
// ---------------------------------------------------------------------------------------------

/// Adds a probe to each of the hosts of a subnet.
fn add_hosts(steps: &mut Vec<ProbeStep>, hosts: &Vec<Ipv4Addr>)
    ensures
        step_views(final(steps)@) == step_views(old(steps)@) + host_steps(hosts@),
{
    let ghost start = step_views(steps@);
    let mut i: usize = 0;
    assert(step_views(steps@) =~= start + host_steps(hosts@.take(0)));
    while i < hosts.len()
        invariant
            i <= hosts.len(),
            step_views(steps@) == start + host_steps(hosts@.take(i as int)),
        decreases hosts.len() - i,
    {
        let ghost before = step_views(steps@);
        let ghost now = hosts@.take(i + 1);
        assert(now.drop_last() =~= hosts@.take(i as int));
        let send = ProbeStep::Send { address: hosts[i], target: ProbeTarget::Subnet };
        steps.push(send);
        assert(step_views(steps@) =~= before.push(send@));
        if i > 0 && i % 10 == 0 {
            let ghost sent = step_views(steps@);
            let pause = ProbeStep::Pause(SUBNET_PAUSE);
            steps.push(pause);
            assert(step_views(steps@) =~= sent.push(pause@));
        }
        assert(step_views(steps@) =~= start + host_steps(now));
        i += 1;
    }
    assert(hosts@.take(hosts@.len() as int) =~= hosts@);
}

/// Adds the probes to a subnet.
fn add_subnet(steps: &mut Vec<ProbeStep>, name: &str)
    ensures
        step_views(final(steps)@) == step_views(old(steps)@) + subnet_steps(name@),
{
    match subnet::parse_subnet(name) {
        Ok(hosts) => {
            add_hosts(steps, &hosts);
        },
        Err(e) => {
            let ghost before = step_views(steps@);
            let report = ProbeStep::Report(
                "Failed to probe subnet ".to_owned().concat(name).concat(": ").concat(
                    &e.to_string(),
                ),
            );
            steps.push(report);
            assert(step_views(steps@) =~= before + seq![report@]);
        },
    }
}

/// The steps of a discovery
pub fn probe_plan(options: &DiscoveryOptions) -> (r: Vec<ProbeStep>)
    ensures
        step_views(r@) == plan_of(options@),
{
    let group = Ipv4Addr { bits: WS_DISCOVERY_MULTICAST_ADDR };
    let mut steps: Vec<ProbeStep> = vec![
        ProbeStep::Send { address: group, target: ProbeTarget::Multicast(1) },
        ProbeStep::Pause(MULTICAST_PAUSE),
        ProbeStep::Send { address: group, target: ProbeTarget::Multicast(2) },
        ProbeStep::Pause(MULTICAST_PAUSE),
        ProbeStep::Send { address: group, target: ProbeTarget::Multicast(3) },
    ];
    let ghost subnets = options@.additional_subnets;
    assert(step_views(steps@) =~= multicast_steps());
    assert(step_views(steps@) =~= multicast_steps() + subnets_steps(subnets.take(0)));
    let mut i: usize = 0;
    while i < options.additional_subnets.len()
        invariant
            subnets == text::texts(options.additional_subnets@),
            i <= options.additional_subnets.len(),
            step_views(steps@) == multicast_steps() + subnets_steps(subnets.take(i as int)),
        decreases options.additional_subnets.len() - i,
    {
        let ghost now = subnets.take(i + 1);
        assert(now.drop_last() =~= subnets.take(i as int));
        assert(now.last() == options.additional_subnets@[i as int]@);
        add_subnet(&mut steps, &options.additional_subnets[i]);
        assert(step_views(steps@) =~= multicast_steps() + subnets_steps(now));
        i += 1;
    }
    assert(subnets.take(subnets.len() as int) =~= subnets);
    if options.use_broadcast {
        let ghost before = step_views(steps@);
        let send = ProbeStep::Send {
            address: Ipv4Addr { bits: BROADCAST_ADDR },
            target: ProbeTarget::Broadcast,
        };
        steps.push(send);
        assert(step_views(steps@) =~= before + seq![send@]);
    } else {
        assert(step_views(steps@) =~= step_views(steps@) + broadcast_steps(false));
    }
    steps
}

} // verus!
