//! Discovery: beacons heard during a listening window update the known devices.
use crate::config::model::{device_pos, Device, DeviceMap, DeviceView};
use crate::device::DeviceResults;
use crate::protocol::becon::BeconPayload;
use crate::protocol::Payload;
use vstd::prelude::*;

verus! {

/// What happens while listening.
pub enum DiscoveryEvent {
    Packet(Payload),
    TimedOut,
}

/// Whether to keep listening.
#[derive(Debug)]
pub enum Flow {
    Continue,
    Finish,
}

/// The device a first beacon from `id` at `ip` adds: its alias is its ID.
pub open spec fn discovered_device(id: Seq<char>, ip: Seq<char>) -> DeviceView {
    DeviceView { alias: Some(id), id: id, ip: ip, groups: Seq::empty() }
}

/// The devices after a beacon, and whether the beacon changed them: a known
/// device takes the beacon's address, an unknown one is added.
pub open spec fn after_beacon(e: Seq<(Seq<char>, DeviceView)>, id: Seq<char>, ip: Seq<char>) -> (
    Seq<(Seq<char>, DeviceView)>,
    bool,
) {
    match device_pos(e, id) {
        Some(i) => if e[i].1.ip == ip {
            (e, false)
        } else {
            (e.update(i, (e[i].0, DeviceView { ip: ip, ..e[i].1 })), true)
        },
        None => (e.push((id, discovered_device(id, ip))), true),
    }
}

/// The state discovery starts from: the configured devices, unchanged.
pub fn discovery_start(base: &DeviceMap) -> (r: DeviceResults)
    requires
        base.wf(),
    ensures
        r.devices@ == base@,
        r.devices.wf(),
        !r.changed,
{
    DeviceResults { devices: base.duplicate(), changed: false }
}

/// Takes a beacon into the devices.
pub fn record_beacon(results: &mut DeviceResults, beacon: &BeconPayload)
    requires
        old(results).devices.wf(),
    ensures
        final(results).devices.wf(),
        final(results).devices@ == after_beacon(old(results).devices@, beacon.device_id@, beacon.ip@).0,
        final(results).changed == (old(results).changed || after_beacon(
            old(results).devices@,
            beacon.device_id@,
            beacon.ip@,
        ).1),
{
    match results.devices.position(beacon.device_id.as_str()) {
        Some(i) => {
            let d = results.devices.device_at(i);
            if !crate::text::str_eq(d.ip.as_str(), beacon.ip.as_str()) {
                let alias = match &d.alias {
                    Some(a) => Some(a.clone()),
                    None => None,
                };
                let updated = Device {
                    alias,
                    id: d.id.clone(),
                    ip: beacon.ip.clone(),
                    groups: crate::config::model::copy_texts(&d.groups),
                };
                results.devices.replace_at(i, updated);
                results.changed = true;
            }
        },
        None => {
            proof {
                crate::config::model::device_keys(results.devices@).index_of_first_ensures(
                    beacon.device_id@,
                );
            }
            let device = Device {
                alias: Some(beacon.device_id.clone()),
                id: beacon.device_id.clone(),
                ip: beacon.ip.clone(),
                groups: Vec::new(),
            };
            assert(device@.groups =~= Seq::<Seq<char>>::empty());
            results.devices.insert(beacon.device_id.clone(), device);
            results.changed = true;
        },
    }
}

/// One event of discovery: beacons are recorded, status reports ignored, and
/// the end of the window ends it.
pub fn discovery_step(results: &mut DeviceResults, event: DiscoveryEvent) -> (r: Flow)
    requires
        old(results).devices.wf(),
    ensures
        final(results).devices.wf(),
        match event {
            DiscoveryEvent::TimedOut => r is Finish && *final(results) == *old(results),
            DiscoveryEvent::Packet(Payload::Status(_)) => r is Continue && *final(results) == *old(
                results,
            ),
            DiscoveryEvent::Packet(Payload::Becon(b)) => {
                &&& r is Continue
                &&& final(results).devices@ == after_beacon(old(results).devices@, b.device_id@, b.ip@).0
                &&& final(results).changed == (old(results).changed || after_beacon(
                    old(results).devices@,
                    b.device_id@,
                    b.ip@,
                ).1)
            },
        },
{
    match event {
        DiscoveryEvent::TimedOut => Flow::Finish,
        DiscoveryEvent::Packet(Payload::Becon(b)) => {
            record_beacon(results, &b);
            Flow::Continue
        },
        DiscoveryEvent::Packet(Payload::Status(_)) => Flow::Continue,
    }
}

} // verus!
