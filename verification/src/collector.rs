//! The collection of the answers to a probe.

use crate::addr::Ipv4Addr;
use crate::discovery;
use crate::discovery::{DiscoveredDevice, DiscoveredDeviceView, DiscoveryResults};
use crate::plan::ProbeTarget;
use crate::probe;
use crate::probe::{Answer, AnswerView};
use crate::text;
use crate::time::Duration;
use vstd::prelude::*;

verus! {

/// The collection ends after this many waits in a row without an answer
pub const MAX_CONSECUTIVE_TIMEOUTS: u32 = 5;

/// How long to wait for an answer, in milliseconds
pub const RECEIVE_TIMEOUT: u64 = 500;

/// The longest answer that is read, in bytes
pub const MAX_DATAGRAM_LEN: usize = 8192;

/// Results from WS-Discovery probe
#[derive(Debug)]
pub struct ProbeResults {
    pub devices: Vec<DiscoveredDevice>,
    pub responses_received: usize,
    pub errors: Vec<String>,
}

// ---------------------------------------------------------------------------------------------
// Devices by their identifier
// ---------------------------------------------------------------------------------------------

/// The views of a row of devices.
pub open spec fn device_views(devices: Seq<DiscoveredDevice>) -> Seq<DiscoveredDeviceView> {
    devices.map_values(|d: DiscoveredDevice| d@)
}

/// No two devices have the same identifier.
pub open spec fn distinct(devices: Seq<DiscoveredDeviceView>) -> bool {
    forall|i: int, j: int|
        #![trigger devices[i], devices[j]]
        0 <= i < j < devices.len() ==> devices[i].uuid != devices[j].uuid
}

/// The devices by their identifier.
pub open spec fn device_map(devices: Seq<DiscoveredDeviceView>) -> Map<
    Seq<char>,
    DiscoveredDeviceView,
>
    decreases devices.len(),
{
    if devices.len() == 0 {
        Map::empty()
    } else {
        device_map(devices.drop_last()).insert(devices.last().uuid, devices.last())
    }
}

/// The devices come in the order of their addresses.
pub open spec fn in_address_order(devices: Seq<DiscoveredDeviceView>) -> bool {
    forall|i: int, j: int|
        #![trigger devices[i], devices[j]]
        0 <= i <= j < devices.len() ==> devices[i].ip_address.bits <= devices[j].ip_address.bits
}

/// Devices with different identifiers are all in the map, and nothing else is.
pub proof fn lemma_device_map(devices: Seq<DiscoveredDeviceView>)
    requires
        distinct(devices),
    ensures
        device_map(devices).dom().finite(),
        device_map(devices).dom().len() == devices.len(),
        forall|i: int|
            0 <= i < devices.len() ==> #[trigger] device_map(devices).dom().contains(
                devices[i].uuid,
            ) && device_map(devices)[devices[i].uuid] == devices[i],
        forall|uuid: Seq<char>| #[trigger]
            device_map(devices).dom().contains(uuid) ==> exists|i: int|
                0 <= i < devices.len() && #[trigger] devices[i].uuid == uuid,
    decreases devices.len(),
{
    if devices.len() > 0 {
        let before = devices.drop_last();
        let last = devices.last();
        assert forall|i: int, j: int|
            #![trigger before[i], before[j]]
            0 <= i < j < before.len() implies before[i].uuid != before[j].uuid by {
            assert(devices[i].uuid != devices[j].uuid);
        }
        lemma_device_map(before);
        let map = device_map(devices);
        assert(!device_map(before).dom().contains(last.uuid)) by {
            if device_map(before).dom().contains(last.uuid) {
                let i = choose|i: int|
                    0 <= i < before.len() && #[trigger] before[i].uuid == last.uuid;
                assert(devices[i].uuid != devices[devices.len() - 1].uuid);
            }
        }
        assert forall|i: int| 0 <= i < devices.len() implies #[trigger] map.dom().contains(
            devices[i].uuid,
        ) && map[devices[i].uuid] == devices[i] by {
            if i < devices.len() - 1 {
                assert(before[i] == devices[i]);
                assert(device_map(before).dom().contains(before[i].uuid));
                assert(devices[i].uuid != devices[devices.len() - 1].uuid);
            }
        }
        assert forall|uuid: Seq<char>| #[trigger] map.dom().contains(uuid) implies exists|i: int|
            0 <= i < devices.len() && #[trigger] devices[i].uuid == uuid by {
            if device_map(before).dom().contains(uuid) {
                let i = choose|i: int| 0 <= i < before.len() && #[trigger] before[i].uuid == uuid;
                assert(devices[i].uuid == uuid);
            } else {
                assert(devices[devices.len() - 1].uuid == uuid);
            }
        }
    }
}

/// The map depends on which devices there are, not on their order.
proof fn lemma_device_map_order(a: Seq<DiscoveredDeviceView>, b: Seq<DiscoveredDeviceView>)
    requires
        distinct(a),
        distinct(b),
        forall|d: DiscoveredDeviceView| a.contains(d) <==> b.contains(d),
    ensures
        device_map(a) == device_map(b),
{
    lemma_device_map(a);
    lemma_device_map(b);
    assert forall|uuid: Seq<char>|
        device_map(a).dom().contains(uuid) <==> device_map(b).dom().contains(uuid) by {
        if device_map(a).dom().contains(uuid) {
            let i = choose|i: int| 0 <= i < a.len() && #[trigger] a[i].uuid == uuid;
            assert(a.contains(a[i]));
            let j = choose|j: int| 0 <= j < b.len() && b[j] == a[i];
            assert(device_map(b).dom().contains(b[j].uuid));
        }
        if device_map(b).dom().contains(uuid) {
            let i = choose|i: int| 0 <= i < b.len() && #[trigger] b[i].uuid == uuid;
            assert(b.contains(b[i]));
            let j = choose|j: int| 0 <= j < a.len() && a[j] == b[i];
            assert(device_map(a).dom().contains(a[j].uuid));
        }
    }
    assert forall|uuid: Seq<char>| #[trigger] device_map(a).dom().contains(uuid) implies device_map(
        a,
    )[uuid] == device_map(b)[uuid] by {
        let i = choose|i: int| 0 <= i < a.len() && #[trigger] a[i].uuid == uuid;
        assert(a.contains(a[i]));
        assert(device_map(a).dom().contains(a[i].uuid));
        let j = choose|j: int| 0 <= j < b.len() && b[j] == a[i];
        assert(device_map(b).dom().contains(b[j].uuid));
    }
    assert(device_map(a) =~= device_map(b));
}

/// Replacing a device by one with the same identifier.
proof fn lemma_device_map_replace(
    devices: Seq<DiscoveredDeviceView>,
    k: int,
    device: DiscoveredDeviceView,
)
    requires
        distinct(devices),
        0 <= k < devices.len(),
        devices[k].uuid == device.uuid,
    ensures
        distinct(devices.update(k, device)),
        device_map(devices.update(k, device)) == device_map(devices).insert(device.uuid, device),
{
    let after = devices.update(k, device);
    assert forall|i: int, j: int|
        #![trigger after[i], after[j]]
        0 <= i < j < after.len() implies after[i].uuid != after[j].uuid by {
        assert(devices[i].uuid != devices[j].uuid);
    }
    lemma_device_map(devices);
    lemma_device_map(after);
    let old_map = device_map(devices);
    let new_map = device_map(after);
    assert forall|uuid: Seq<char>|
        new_map.dom().contains(uuid) <==> old_map.insert(device.uuid, device).dom().contains(
            uuid,
        ) by {
        if new_map.dom().contains(uuid) {
            let i = choose|i: int| 0 <= i < after.len() && #[trigger] after[i].uuid == uuid;
            assert(old_map.dom().contains(devices[i].uuid));
        }
        if old_map.dom().contains(uuid) {
            let i = choose|i: int| 0 <= i < devices.len() && #[trigger] devices[i].uuid == uuid;
            assert(new_map.dom().contains(after[i].uuid));
        }
        assert(new_map.dom().contains(after[k].uuid));
    }
    assert forall|uuid: Seq<char>| #[trigger] new_map.dom().contains(uuid) implies new_map[uuid]
        == old_map.insert(device.uuid, device)[uuid] by {
        let i = choose|i: int| 0 <= i < after.len() && #[trigger] after[i].uuid == uuid;
        assert(new_map.dom().contains(after[i].uuid));
        if i != k {
            assert(devices[i] == after[i]);
            assert(old_map.dom().contains(devices[i].uuid));
            assert(devices[i].uuid != devices[k].uuid);
        }
    }
    assert(new_map =~= old_map.insert(device.uuid, device));
}

// ---------------------------------------------------------------------------------------------
// The collector
// ---------------------------------------------------------------------------------------------

/// What has been collected of the answers to a probe.
#[derive(Debug)]
pub struct ProbeCollector {
    devices: Vec<DiscoveredDevice>,
    responses_received: usize,
    errors: Vec<String>,
    max_results: usize,
    quiet: u32,
}

/// The view of a `ProbeCollector`.
#[verifier::ext_equal]
pub struct CollectorView {
    /// The devices found, by their identifier
    pub devices: Map<Seq<char>, DiscoveredDeviceView>,
    /// How many answers came, of any kind
    pub responses_received: nat,
    /// What went wrong
    pub errors: Seq<Seq<char>>,
    /// How many devices are wanted
    pub max_results: nat,
    /// How many waits in a row ended without an answer
    pub quiet: nat,
}

impl View for ProbeCollector {
    type V = CollectorView;

    closed spec fn view(&self) -> CollectorView {
        CollectorView {
            devices: device_map(device_views(self.devices@)),
            responses_received: self.responses_received as nat,
            errors: text::texts(self.errors@),
            max_results: self.max_results as nat,
            quiet: self.quiet as nat,
        }
    }
}

/// More answers are waited for: there are fewer devices than wanted, and the last waits were not
/// all in vain.
pub open spec fn wants_more(c: CollectorView) -> bool {
    c.devices.dom().len() < c.max_results && c.quiet < MAX_CONSECUTIVE_TIMEOUTS
}

/// A note that something went wrong.
pub open spec fn reported(c: CollectorView, message: Seq<char>) -> CollectorView {
    CollectorView { errors: c.errors.push(message), ..c }
}

/// What an answer from `source` changes. A device replaces one with the same identifier.
pub open spec fn received(c: CollectorView, source: Seq<char>, answer: AnswerView) -> CollectorView {
    let counted = CollectorView {
        responses_received: c.responses_received + 1,
        quiet: 0,
        ..c
    };
    match answer {
        AnswerView::Device(device) => CollectorView {
            devices: c.devices.insert(device.uuid, device),
            ..counted
        },
        AnswerView::Unreadable(e) => reported(
            counted,
            "Failed to parse response from "@ + source + ": "@ + discovery::discovery_message(e),
        ),
        AnswerView::Unusable(e) => reported(
            counted,
            "Failed to convert probe match from "@ + source + ": "@ + discovery::discovery_message(
                e,
            ),
        ),
    }
}

/// What it changes that a probe could not be sent. One host of a subnet more or less is not worth
/// a note.
pub open spec fn send_failed(
    c: CollectorView,
    target: ProbeTarget,
    message: Seq<char>,
) -> CollectorView {
    match target {
        ProbeTarget::Multicast(number) => reported(
            c,
            "Failed to send multicast probe "@ + text::decimal(number as nat) + ": "@ + message,
        ),
        ProbeTarget::Subnet => c,
        ProbeTarget::Broadcast => reported(
            c,
            "Failed to send broadcast probe: Network error: "@ + message,
        ),
    }
}

/// What it changes that receiving an answer failed.
pub open spec fn receive_failed(c: CollectorView, message: Seq<char>) -> CollectorView {
    reported(CollectorView { quiet: 0, ..c }, "Socket receive error: "@ + message)
}

/// There is at least one answer for each device, and there are no more devices than wanted.
pub open spec fn bounded(c: CollectorView) -> bool {
    &&& c.devices.dom().finite()
    &&& c.devices.dom().len() <= c.responses_received
    &&& c.devices.dom().len() <= c.max_results
}

/// However many answers come, there are never more devices than answers, nor more than wanted.
pub proof fn law_devices_are_bounded(c: CollectorView, source: Seq<char>, answer: AnswerView)
    requires
        bounded(c),
        wants_more(c),
    ensures
        bounded(received(c, source, answer)),
{
}

/// A device that answers twice is found once, as its last answer describes it.
pub proof fn law_duplicates_are_merged(
    c: CollectorView,
    source: Seq<char>,
    first: DiscoveredDeviceView,
    second: DiscoveredDeviceView,
)
    requires
        first.uuid == second.uuid,
    ensures
        ({
            let once = received(c, source, AnswerView::Device(first));
            let twice = received(once, source, AnswerView::Device(second));
            &&& twice.devices.dom() == once.devices.dom()
            &&& twice.devices[second.uuid] == second
            &&& twice.responses_received == c.responses_received + 2
        }),
{
    let once = received(c, source, AnswerView::Device(first));
    let twice = received(once, source, AnswerView::Device(second));
    assert(twice.devices.dom() =~= once.devices.dom());
}

/// An answer that tells of no device leaves the devices as they are, and is noted.
pub proof fn law_bad_answers_are_noted(c: CollectorView, source: Seq<char>, answer: AnswerView)
    requires
        answer !is Device,
    ensures
        received(c, source, answer).devices == c.devices,
        received(c, source, answer).errors.len() == c.errors.len() + 1,
        received(c, source, answer).errors.drop_last() == c.errors,
{
    assert(received(c, source, answer).errors.drop_last() =~= c.errors);
}

/// What a wait without an answer changes.
pub open spec fn waited(c: CollectorView) -> CollectorView {
    CollectorView { quiet: c.quiet + 1, ..c }
}

/// What a number of waits in a row without an answer changes.
pub open spec fn waited_times(c: CollectorView, waits: nat) -> CollectorView
    decreases waits,
{
    if waits == 0 {
        c
    } else {
        waited(waited_times(c, (waits - 1) as nat))
    }
}

/// The collection ends with the last of a row of waits without an answer, and not before.
pub proof fn law_silence_ends_collection(c: CollectorView, waits: nat)
    requires
        wants_more(c),
    ensures
        waited_times(c, waits) == (CollectorView { quiet: c.quiet + waits, ..c }),
        wants_more(waited_times(c, waits)) <==> c.quiet + waits < MAX_CONSECUTIVE_TIMEOUTS,
    decreases waits,
{
    if waits > 0 {
        law_silence_ends_collection(c, (waits - 1) as nat);
    }
}

/// A wait without an answer changes nothing but that there was one more of them in a row.
pub proof fn law_wait_is_counted(c: CollectorView)
    ensures
        waited(c).quiet == c.quiet + 1,
        waited(c).devices == c.devices,
        waited(c).responses_received == c.responses_received,
        waited(c).errors == c.errors,
        waited(c).max_results == c.max_results,
{
}

/// More answers are waited for as long as fewer devices are known than wanted and fewer than five
/// waits in a row were in vain.
pub proof fn law_wants_more(c: CollectorView)
    ensures
        wants_more(c) <==> c.devices.dom().len() < c.max_results && c.quiet < 5,
{
}

/// Silence ends the collection after two and a half seconds: five waits of half a second.
pub proof fn law_silence_lasts(c: CollectorView, waits: nat)
    requires
        wants_more(c),
        c.quiet == 0,
    ensures
        wants_more(waited_times(c, waits)) <==> waits * RECEIVE_TIMEOUT < 2500,
        waits == 1 ==> waits * RECEIVE_TIMEOUT == 500,
{
    law_silence_ends_collection(c, waits);
}

/// After any answer, readable or not, the waits in vain are counted from nothing again: if fewer
/// devices are known than wanted, more answers are waited for after each of the next four waits
/// in vain, and not after the fifth or any later one.
pub proof fn law_answer_ends_silence(c: CollectorView, source: Seq<char>, answer: AnswerView)
    ensures
        ({
            let after = received(c, source, answer);
            let one = waited(after);
            let two = waited(one);
            let three = waited(two);
            let four = waited(three);
            &&& after.quiet == 0
            &&& after.devices.dom().len() < c.max_results ==> {
                &&& wants_more(after)
                &&& wants_more(one)
                &&& wants_more(two)
                &&& wants_more(three)
                &&& wants_more(four)
                &&& !wants_more(waited(four))
                &&& forall|waits: nat|
                    wants_more(#[trigger] waited_times(after, waits)) <==> waits < 5
            }
        }),
{
    let after = received(c, source, answer);
    if after.devices.dom().len() < c.max_results {
        assert forall|waits: nat|
            wants_more(#[trigger] waited_times(after, waits)) <==> waits < 5 by {
            law_silence_ends_collection(after, waits);
        }
    }
}

/// Every answer counts once. One that describes a device adds it, or puts it in the place of the
/// one with the same identifier, and changes no other device and no note; any other leaves the
/// devices and adds one note, of who sent it and why it is of no use.
pub proof fn law_answer_is_taken_in(c: CollectorView, source: Seq<char>, answer: AnswerView)
    ensures
        ({
            let after = received(c, source, answer);
            &&& after.responses_received == c.responses_received + 1
            &&& after.max_results == c.max_results
            &&& match answer {
                AnswerView::Device(device) => {
                    &&& after.errors == c.errors
                    &&& after.devices.dom().contains(device.uuid)
                    &&& after.devices[device.uuid] == device
                    &&& forall|uuid: Seq<char>|
                        uuid != device.uuid ==> (#[trigger] after.devices.dom().contains(uuid)
                            <==> c.devices.dom().contains(uuid))
                    &&& forall|uuid: Seq<char>|
                        uuid != device.uuid && c.devices.dom().contains(uuid)
                            ==> #[trigger] after.devices[uuid] == c.devices[uuid]
                },
                AnswerView::Unreadable(e) => {
                    &&& after.devices == c.devices
                    &&& after.errors == c.errors.push(
                        "Failed to parse response from "@ + source + ": "@
                            + discovery::discovery_message(e),
                    )
                },
                AnswerView::Unusable(e) => {
                    &&& after.devices == c.devices
                    &&& after.errors == c.errors.push(
                        "Failed to convert probe match from "@ + source + ": "@
                            + discovery::discovery_message(e),
                    )
                },
            }
        }),
{
}

/// A failure to receive is no wait in vain: it is noted, and the waits in vain are counted from
/// nothing again. It finds no device and is no answer.
pub proof fn law_receive_failure_is_noted(c: CollectorView, message: Seq<char>)
    ensures
        ({
            let after = receive_failed(c, message);
            &&& after.errors == c.errors.push("Socket receive error: "@ + message)
            &&& after.quiet == 0
            &&& after.devices == c.devices
            &&& after.responses_received == c.responses_received
            &&& after.max_results == c.max_results
        }),
{
}

/// A note is added behind the notes there are, and nothing else changes.
pub proof fn law_note_is_added(c: CollectorView, message: Seq<char>)
    ensures
        reported(c, message).errors.len() == c.errors.len() + 1,
        reported(c, message).errors.last() == message,
        forall|k: int|
            0 <= k < c.errors.len() ==> #[trigger] reported(c, message).errors[k] == c.errors[k],
        reported(c, message).devices == c.devices,
        reported(c, message).responses_received == c.responses_received,
        reported(c, message).max_results == c.max_results,
        reported(c, message).quiet == c.quiet,
{
}

/// A probe that could not be sent finds no device, and is noted unless it was for one host of a
/// subnet: the note names which of the multicast probes it was, and tells the reason as it was
/// given.
pub proof fn law_send_failure_is_noted(c: CollectorView, target: ProbeTarget, message: Seq<char>)
    ensures
        ({
            let after = send_failed(c, target, message);
            &&& after.devices == c.devices
            &&& after.responses_received == c.responses_received
            &&& after.max_results == c.max_results
            &&& after.quiet == c.quiet
            &&& match target {
                ProbeTarget::Multicast(number) => after.errors == c.errors.push(
                    "Failed to send multicast probe "@ + text::decimal(number as nat) + ": "@
                        + message,
                ),
                ProbeTarget::Broadcast => after.errors == c.errors.push(
                    "Failed to send broadcast probe: Network error: "@ + message,
                ),
                ProbeTarget::Subnet => after.errors == c.errors,
            }
        }),
{
}

/// Of two devices with different addresses the one with the lower address comes first.
pub proof fn law_lower_address_comes_first(devices: Seq<DiscoveredDeviceView>, i: int, j: int)
    requires
        in_address_order(devices),
        0 <= i < devices.len(),
        0 <= j < devices.len(),
        devices[i].ip_address.bits < devices[j].ip_address.bits,
    ensures
        i < j,
{
    if j <= i {
        assert(devices[j].ip_address.bits <= devices[i].ip_address.bits);
    }
}

/// A device stands in one place only.
pub proof fn law_device_stands_once(devices: Seq<DiscoveredDeviceView>, i: int, j: int)
    requires
        distinct(devices),
        0 <= i < devices.len(),
        0 <= j < devices.len(),
        devices[i].uuid == devices[j].uuid,
    ensures
        i == j,
{
    if i < j {
        assert(devices[i].uuid != devices[j].uuid);
    } else if j < i {
        assert(devices[j].uuid != devices[i].uuid);
    }
}

impl ProbeResults {
    /// The results of a discovery that took `scan_duration`.
    pub fn into_results(self, scan_duration: Duration) -> (r: DiscoveryResults)
        ensures
            r.devices == self.devices,
            r.scan_duration == scan_duration,
            r.errors == self.errors,
            r.responses_received == self.responses_received,
    {
        DiscoveryResults {
            devices: self.devices,
            scan_duration,
            errors: self.errors,
            responses_received: self.responses_received,
        }
    }
}

impl ProbeCollector {
    /// The devices have different identifiers, came with an answer each, and are no more than
    /// wanted.
    pub closed spec fn wf(self) -> bool {
        &&& distinct(device_views(self.devices@))
        &&& self.devices@.len() <= self.responses_received
        &&& self.devices@.len() <= self.max_results
        &&& self.quiet <= MAX_CONSECUTIVE_TIMEOUTS
    }

    /// Nothing collected yet, and `max_results` devices wanted.
    pub fn new(max_results: usize) -> (r: Self)
        ensures
            r.wf(),
            r@ == (CollectorView {
                devices: Map::empty(),
                responses_received: 0,
                errors: Seq::empty(),
                max_results: max_results as nat,
                quiet: 0,
            }),
    {
        let r = ProbeCollector {
            devices: Vec::new(),
            responses_received: 0,
            errors: Vec::new(),
            max_results,
            quiet: 0,
        };
        assert(device_views(r.devices@).len() == 0);
        assert(r@.errors =~= Seq::empty());
        r
    }

    /// Whether more answers are waited for.
    pub fn wants_more(&self) -> (r: bool)
        requires
            self.wf(),
        ensures
            r == wants_more(self@),
    {
        proof {
            lemma_device_map(device_views(self.devices@));
        }
        self.devices.len() < self.max_results && self.quiet < MAX_CONSECUTIVE_TIMEOUTS
    }

    /// How many answers came.
    pub fn responses_received(&self) -> (r: usize)
        ensures
            r == self@.responses_received,
    {
        self.responses_received
    }

    /// Notes that something went wrong.
    pub fn report(&mut self, message: String)
        requires
            old(self).wf(),
        ensures
            final(self).wf(),
            final(self)@ == reported(old(self)@, message@),
    {
        let ghost before = self@.errors;
        self.errors.push(message);
        assert(self@.errors =~= before.push(message@));
    }

    /// A probe could not be sent.
    pub fn send_failed(&mut self, target: ProbeTarget, message: &str)
        requires
            old(self).wf(),
        ensures
            final(self).wf(),
            final(self)@ == send_failed(old(self)@, target, message@),
    {
        match target {
            ProbeTarget::Multicast(number) => {
                let report = "Failed to send multicast probe ".to_owned().concat(
                    &text::decimal_text(number as u64),
                ).concat(": ").concat(message);
                self.report(report);
            },
            ProbeTarget::Subnet => {},
            ProbeTarget::Broadcast => {
                let report = "Failed to send broadcast probe: Network error: ".to_owned().concat(
                    message,
                );
                self.report(report);
            },
        }
    }

    /// A wait ended without an answer.
    pub fn receive_nothing(&mut self)
        requires
            old(self).wf(),
            wants_more(old(self)@),
        ensures
            final(self).wf(),
            final(self)@ == waited(old(self)@),
    {
        self.quiet = self.quiet + 1;
    }

    /// Receiving an answer failed.
    pub fn receive_failed(&mut self, message: &str)
        requires
            old(self).wf(),
        ensures
            final(self).wf(),
            final(self)@ == receive_failed(old(self)@, message@),
    {
        self.report("Socket receive error: ".to_owned().concat(message));
        self.quiet = 0;
    }

    /// Adds a device, or replaces the one with the same identifier.
    fn insert(&mut self, device: DiscoveredDevice)
        requires
            distinct(device_views(old(self).devices@)),
        ensures
            distinct(device_views(final(self).devices@)),
            device_map(device_views(final(self).devices@)) == device_map(
                device_views(old(self).devices@),
            ).insert(device@.uuid, device@),
            final(self).devices@.len() <= old(self).devices@.len() + 1,
            final(self).responses_received == old(self).responses_received,
            final(self).errors == old(self).errors,
            final(self).max_results == old(self).max_results,
            final(self).quiet == old(self).quiet,
    {
        let ghost views = device_views(self.devices@);
        let mut i: usize = 0;
        while i < self.devices.len()
            invariant
                *self == *old(self),
                views == device_views(self.devices@),
                distinct(views),
                i <= self.devices.len(),
                forall|j: int| 0 <= j < i ==> #[trigger] views[j].uuid != device@.uuid,
            decreases self.devices.len() - i,
        {
            assert(views[i as int] == self.devices@[i as int]@);
            if text::same(&self.devices[i].uuid, &device.uuid) {
                proof {
                    lemma_device_map_replace(views, i as int, device@);
                }
                self.devices.set(i, device);
                assert(device_views(self.devices@) =~= views.update(i as int, device@));
                return;
            }
            i += 1;
        }
        self.devices.push(device);
        let ghost after = device_views(self.devices@);
        assert(after =~= views.push(device@));
        assert forall|i: int, j: int|
            #![trigger after[i], after[j]]
            0 <= i < j < after.len() implies after[i].uuid != after[j].uuid by {
            if j < views.len() {
                assert(views[i].uuid != views[j].uuid);
            } else {
                assert(views[i].uuid != device@.uuid);
            }
        }
        assert(after.drop_last() =~= views);
    }

    /// An answer came from `source`.
    pub fn receive(&mut self, source: &str, answer: Answer)
        requires
            old(self).wf(),
            wants_more(old(self)@),
            old(self)@.responses_received < usize::MAX,
        ensures
            final(self).wf(),
            final(self)@ == received(old(self)@, source@, answer@),
    {
        proof {
            lemma_device_map(device_views(self.devices@));
        }
        self.responses_received = self.responses_received + 1;
        self.quiet = 0;
        match answer {
            Answer::Device(device) => {
                self.insert(device);
            },
            Answer::Unreadable(e) => {
                let report = "Failed to parse response from ".to_owned().concat(source).concat(
                    ": ",
                ).concat(&e.to_string());
                self.report(report);
            },
            Answer::Unusable(e) => {
                let report = "Failed to convert probe match from ".to_owned().concat(
                    source,
                ).concat(": ").concat(&e.to_string());
                self.report(report);
            },
        }
    }

    /// A datagram came from `source`, `response_time` after the probe and `discovered_at` after
    /// the UNIX epoch.
    pub fn receive_datagram(
        &mut self,
        source: &str,
        response: &[u8],
        response_time: Duration,
        discovered_at: Duration,
    )
        requires
            old(self).wf(),
            wants_more(old(self)@),
            old(self)@.responses_received < usize::MAX,
        ensures
            final(self).wf(),
            final(self)@ == received(
                old(self)@,
                source@,
                probe::answer_of(
                    text::lossy_text(response@),
                    response_time@,
                    discovered_at@,
                ),
            ),
    {
        let answer = probe::read_answer(response, response_time, discovered_at);
        self.receive(source, answer);
    }

    /// What has been collected, the devices in the order of their addresses.
    pub fn finish(self) -> (r: ProbeResults)
        requires
            self.wf(),
        ensures
            distinct(device_views(r.devices@)),
            device_map(device_views(r.devices@)) == self@.devices,
            in_address_order(device_views(r.devices@)),
            r.devices@.len() <= r.responses_received,
            r.devices@.len() <= self@.max_results,
            r.responses_received == self@.responses_received,
            text::texts(r.errors@) == self@.errors,
    {
        let devices = sort_by_address(self.devices);
        proof {
            lemma_device_map(device_views(self.devices@));
            lemma_device_map(device_views(devices@));
        }
        ProbeResults {
            devices,
            responses_received: self.responses_received,
            errors: self.errors,
        }
    }
}

/// Where a device with the address `ip` goes among devices in the order of their addresses: before
/// the first whose address is not lower.
fn insertion_point(devices: &Vec<DiscoveredDevice>, ip: Ipv4Addr) -> (r: usize)
    requires
        in_address_order(device_views(devices@)),
    ensures
        r <= devices@.len(),
        forall|i: int| 0 <= i < r ==> #[trigger] devices@[i].ip_address.bits < ip.bits,
        forall|i: int| r <= i < devices@.len() ==> ip.bits <= #[trigger] devices@[i].ip_address.bits,
{
    let ghost views = device_views(devices@);
    let mut i: usize = 0;
    while i < devices.len() && devices[i].ip_address.bits < ip.bits
        invariant
            i <= devices.len(),
            forall|j: int| 0 <= j < i ==> #[trigger] devices@[j].ip_address.bits < ip.bits,
        decreases devices.len() - i,
    {
        i += 1;
    }
    assert forall|j: int| i <= j < devices@.len() implies ip.bits <= #[trigger] devices@[
        j
    ].ip_address.bits by {
        assert(views[i as int] == devices@[i as int]@);
        assert(views[j] == devices@[j]@);
        assert(views[i as int].ip_address.bits <= views[j].ip_address.bits);
    }
    i
}

/// Putting the device before the rest of `all`, from `n` on, where it belongs.
proof fn lemma_sorted_insert(
    sorted: Seq<DiscoveredDeviceView>,
    at: int,
    d: DiscoveredDeviceView,
    all: Seq<DiscoveredDeviceView>,
    n: int,
)
    requires
        distinct(all),
        0 < n <= all.len(),
        d == all[n - 1],
        distinct(sorted),
        in_address_order(sorted),
        0 <= at <= sorted.len(),
        forall|i: int| 0 <= i < at ==> (#[trigger] sorted[i]).ip_address.bits <= d.ip_address.bits,
        forall|i: int|
            at <= i < sorted.len() ==> d.ip_address.bits <= (#[trigger] sorted[i]).ip_address.bits,
        forall|x: DiscoveredDeviceView| sorted.contains(x) <==> all.skip(n).contains(x),
    ensures
        distinct(sorted.insert(at, d)),
        in_address_order(sorted.insert(at, d)),
        forall|x: DiscoveredDeviceView|
            sorted.insert(at, d).contains(x) <==> all.skip(n - 1).contains(x),
{
    let after = sorted.insert(at, d);
    let index = |i: int| if i < at { i } else { i - 1 };
    assert forall|i: int| 0 <= i < sorted.len() implies (#[trigger] sorted[i]).uuid != d.uuid by {
        assert(sorted.contains(sorted[i]));
        let k = choose|k: int| 0 <= k < all.skip(n).len() && all.skip(n)[k] == sorted[i];
        assert(all[n + k] == sorted[i]);
        assert(all[n - 1].uuid != all[n + k].uuid);
    }
    assert forall|i: int| 0 <= i < after.len() && i != at implies #[trigger] after[i]
        == sorted[index(i)] by {}
    assert forall|i: int, j: int|
        #![trigger after[i], after[j]]
        0 <= i < j < after.len() implies after[i].uuid != after[j].uuid by {
        if i != at && j != at {
            assert(sorted[index(i)].uuid != sorted[index(j)].uuid);
        }
    }
    assert forall|i: int, j: int|
        #![trigger after[i], after[j]]
        0 <= i <= j < after.len() implies after[i].ip_address.bits <= after[j].ip_address.bits by {
        if i != at && j != at {
            assert(sorted[index(i)].ip_address.bits <= sorted[index(j)].ip_address.bits);
        }
    }
    assert forall|x: DiscoveredDeviceView|
        after.contains(x) <==> all.skip(n - 1).contains(x) by {
        if after.contains(x) {
            let i = choose|i: int| 0 <= i < after.len() && after[i] == x;
            if i == at {
                assert(all.skip(n - 1)[0] == x);
            } else {
                assert(sorted[index(i)] == x);
                assert(sorted.contains(x));
                let k = choose|k: int| 0 <= k < all.skip(n).len() && all.skip(n)[k] == x;
                assert(all.skip(n - 1)[k + 1] == x);
            }
        }
        if all.skip(n - 1).contains(x) {
            let left = all.skip(n - 1);
            let k = choose|k: int| 0 <= k < left.len() && left[k] == x;
            if k == 0 {
                assert(after[at] == x);
            } else {
                assert(all.skip(n)[k - 1] == x);
                assert(sorted.contains(x));
                let i = choose|i: int| 0 <= i < sorted.len() && sorted[i] == x;
                if i < at {
                    assert(after[i] == x);
                } else {
                    assert(after[i + 1] == x);
                }
            }
        }
    }
}

/// The devices in the order of their addresses.
fn sort_by_address(devices: Vec<DiscoveredDevice>) -> (r: Vec<DiscoveredDevice>)
    requires
        distinct(device_views(devices@)),
    ensures
        distinct(device_views(r@)),
        in_address_order(device_views(r@)),
        device_map(device_views(r@)) == device_map(device_views(devices@)),
{
    let ghost all = device_views(devices@);
    let mut rest = devices;
    let mut sorted: Vec<DiscoveredDevice> = Vec::new();
    while rest.len() > 0
        invariant
            distinct(all),
            rest@.len() <= all.len(),
            device_views(rest@) == all.take(rest@.len() as int),
            distinct(device_views(sorted@)),
            in_address_order(device_views(sorted@)),
            forall|d: DiscoveredDeviceView|
                device_views(sorted@).contains(d) <==> all.skip(rest@.len() as int).contains(d),
        decreases rest@.len(),
    {
        let ghost n = rest@.len() as int;
        let ghost before = device_views(sorted@);
        assert(device_views(rest@)[n - 1] == rest@[n - 1]@);
        if let Some(device) = rest.pop() {
            assert(device_views(rest@) =~= all.take(n - 1));
            let ghost d = device@;
            assert(d == all[n - 1]);
            let at = insertion_point(&sorted, device.ip_address);
            proof {
                assert forall|i: int| 0 <= i < at implies (#[trigger] before[i]).ip_address.bits
                    <= d.ip_address.bits by {
                    assert(before[i] == sorted@[i]@);
                }
                assert forall|i: int| at <= i < before.len() implies d.ip_address.bits <= (
                #[trigger] before[i]).ip_address.bits by {
                    assert(before[i] == sorted@[i]@);
                }
                lemma_sorted_insert(before, at as int, d, all, n);
            }
            sorted.insert(at, device);
            assert(device_views(sorted@) =~= before.insert(at as int, d));
        }
    }
    assert(all.skip(0) =~= all);
    proof {
        lemma_device_map_order(device_views(sorted@), all);
    }
    sorted
}

} // verus!
