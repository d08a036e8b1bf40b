//! Which devices a send command reaches.
use crate::config::groups::{group_entries, groups_get, member_list, members_at, members_len};
use crate::config::model::{alias_pos, device_lookup, Device, DeviceMap, DeviceView};
use crate::text::enclose;
use indexmap::{IndexMap, IndexSet};
use vstd::string::StringExecFns;
use vstd::prelude::*;

verus! {

/// The target of a send command: one device by alias, or a group.
pub enum Target<'a> {
    Alias(&'a str),
    Group(&'a str),
}

/// Why a target named no devices.
#[derive(Debug)]
pub enum TargetError {
    /// No device has the alias.
    DeviceNotFound(String),
    GroupNotFound(String),
    GroupEmpty(String),
    /// A member entry of the group is neither a device key nor an alias.
    UnknownMember { entry: String, group: String },
}

/// The device a group member entry stands for: the device stored under that
/// key, else the first device with that alias.
pub open spec fn member_device(e: Seq<(Seq<char>, DeviceView)>, entry: Seq<char>) -> Option<DeviceView> {
    match device_lookup(e, entry) {
        Some(d) => Some(d),
        None => match alias_pos(e, entry) {
            Some(i) => Some(e[i].1),
            None => None,
        },
    }
}

/// For each member entry, whether it stands for no device.
pub open spec fn unknown_flags(e: Seq<(Seq<char>, DeviceView)>, m: Seq<Seq<char>>) -> Seq<bool> {
    m.map_values(|x: Seq<char>| member_device(e, x) is None)
}

/// The first member entry that stands for no device.
pub open spec fn first_unknown(e: Seq<(Seq<char>, DeviceView)>, m: Seq<Seq<char>>) -> Option<int> {
    unknown_flags(e, m).index_of_first(true)
}

/// The devices of a group, or why there are none.
pub open spec fn group_post(
    e: Seq<(Seq<char>, DeviceView)>,
    g: Seq<(Seq<char>, Seq<Seq<char>>)>,
    name: Seq<char>,
    r: Result<Vec<Device>, TargetError>,
) -> bool {
    match crate::config::groups::group_pos(g, name) {
        None => r matches Err(TargetError::GroupNotFound(x)) && x@ == name,
        Some(gi) => {
            let m = g[gi].1;
            if m.len() == 0 {
                r matches Err(TargetError::GroupEmpty(x)) && x@ == name
            } else {
                match first_unknown(e, m) {
                    Some(k) => r matches Err(TargetError::UnknownMember { entry, group }) && entry@ == m[k]
                        && group@ == name,
                    None => r matches Ok(v) && v@.len() == m.len() && forall|i: int|
                        0 <= i < m.len() ==> member_device(e, m[i]) == Some(#[trigger] v@[i]@),
                }
            }
        },
    }
}

/// The devices a target names.
pub fn resolve_target(
    target: Target,
    devices: &DeviceMap,
    groups: &IndexMap<String, IndexSet<String>>,
) -> (r: Result<Vec<Device>, TargetError>)
    requires
        devices.wf(),
    ensures
        target matches Target::Alias(a) ==> match alias_pos(devices@, a@) {
            Some(i) => r matches Ok(v) && v@.len() == 1 && v@[0]@ == devices@[i].1,
            None => r matches Err(TargetError::DeviceNotFound(x)) && x@ == a@,
        },
        target matches Target::Group(name) ==> group_post(devices@, group_entries(*groups), name@, r),
{
    match target {
        Target::Alias(alias) => resolve_alias(alias, devices),
        Target::Group(group) => resolve_group(group, devices, groups),
    }
}

/// The device with the alias, as a one-element list.
pub fn resolve_alias(alias: &str, devices: &DeviceMap) -> (r: Result<Vec<Device>, TargetError>)
    ensures
        match alias_pos(devices@, alias@) {
            Some(i) => r matches Ok(v) && v@.len() == 1 && v@[0]@ == devices@[i].1,
            None => r matches Err(TargetError::DeviceNotFound(x)) && x@ == alias@,
        },
{
    match devices.alias_position(alias) {
        Some(i) => {
            let mut v: Vec<Device> = Vec::new();
            v.push(devices.device_at(i).duplicate());
            Ok(v)
        },
        None => Err(TargetError::DeviceNotFound(alias.to_owned())),
    }
}

/// The device a member entry stands for.
fn member_device_of<'a>(entry: &str, devices: &'a DeviceMap) -> (r: Option<&'a Device>)
    ensures
        r matches Some(d) ==> member_device(devices@, entry@) == Some(d@),
        r is None ==> member_device(devices@, entry@) is None,
{
    if let Some(d) = devices.get(entry) {
        return Some(d);
    }
    match devices.alias_position(entry) {
        Some(i) => Some(devices.device_at(i)),
        None => None,
    }
}

/// The devices of a group, in member order; every member entry must stand
/// for a device.
fn resolve_group(
    group_name: &str,
    devices: &DeviceMap,
    groups: &IndexMap<String, IndexSet<String>>,
) -> (r: Result<Vec<Device>, TargetError>)
    ensures
        group_post(devices@, group_entries(*groups), group_name@, r),
{
    let entries = match groups_get(groups, group_name) {
        Some(s) => s,
        None => {
            return Err(TargetError::GroupNotFound(group_name.to_owned()));
        },
    };
    let n = members_len(entries);
    if n == 0 {
        return Err(TargetError::GroupEmpty(group_name.to_owned()));
    }
    let ghost m = member_list(*entries);
    let ghost unknown = unknown_flags(devices@, m);
    let mut resolved: Vec<Device> = Vec::new();
    for i in 0..n
        invariant
            n == m.len(),
            n > 0,
            m == member_list(*entries),
            crate::config::groups::group_pos(group_entries(*groups), group_name@) is Some,
            m == group_entries(*groups)[crate::config::groups::group_pos(group_entries(*groups), group_name@)->0].1,
            unknown == unknown_flags(devices@, m),
            resolved@.len() == i,
            forall|j: int| 0 <= j < i ==> member_device(devices@, m[j]) == Some(#[trigger] resolved@[j]@),
            forall|j: int| 0 <= j < i ==> unknown[j] != true,
    {
        let entry = members_at(entries, i);
        match member_device_of(entry.as_str(), devices) {
            Some(d) => {
                resolved.push(d.duplicate());
            },
            None => {
                proof {
                    assert(unknown[i as int] == true);
                    crate::config::model::lemma_first_at(unknown, true, i as int);
                    assert(first_unknown(devices@, m) == Some(i as int));
                }
                let entry_text = entry.clone();
                let group_text = group_name.to_owned();
                assert(entry_text@ == m[i as int]);

                return Err(TargetError::UnknownMember { entry: entry_text, group: group_text });
            },
        }
    }
    proof {
        crate::config::model::lemma_absent(unknown, true);
    }
    Ok(resolved)
}

/// The text a target that names no devices is reported with.
pub open spec fn target_error_text(e: TargetError) -> Seq<char> {
    match e {
        TargetError::DeviceNotFound(a) => "Device ID '"@ + a@ + "' not found"@,
        TargetError::GroupNotFound(n) => "Group '"@ + n@ + "' not found"@,
        TargetError::GroupEmpty(n) => "Group '"@ + n@ + "' is empty"@,
        TargetError::UnknownMember { entry, group } => "Entry '"@ + entry@ + "' in group '"@ + group@
            + "' does not match any device ID of alias"@,
    }
}

impl TargetError {
    /// The text this error is reported with.
    pub fn message(&self) -> (r: String)
        ensures
            r@ == target_error_text(*self),
    {
        match self {
            TargetError::DeviceNotFound(a) => enclose("Device ID '", a.as_str(), "' not found"),
            TargetError::GroupNotFound(n) => enclose("Group '", n.as_str(), "' not found"),
            TargetError::GroupEmpty(n) => enclose("Group '", n.as_str(), "' is empty"),
            TargetError::UnknownMember { entry, group } => {
                let mut r = enclose("Entry '", entry.as_str(), "' in group '");
                r.append(group.as_str());
                r.append("' does not match any device ID of alias");
                r
            },
        }
    }
}

} // verus!
