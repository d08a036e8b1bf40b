//! The configuration's data: network ports, the known devices keyed by device
//! ID, and the group table.
use crate::config::groups::{group_entries, groups_new};
use crate::text::str_eq;
use indexmap::{IndexMap, IndexSet};
use vstd::prelude::*;

verus! {

/// The UDP ports the fans use.
#[derive(Debug)]
pub struct NetworkConfig {
    pub becon_port: u16,
    pub command_port: u16,
}

/// A fan the configuration knows.
#[derive(Debug)]
pub struct Device {
    pub alias: Option<String>,
    pub id: String,
    pub ip: String,
    pub groups: Vec<String>,
}

/// A device as values: its alias, ID, address and the groups it lists.
pub struct DeviceView {
    pub alias: Option<Seq<char>>,
    pub id: Seq<char>,
    pub ip: Seq<char>,
    pub groups: Seq<Seq<char>>,
}

pub open spec fn opt_text(o: Option<String>) -> Option<Seq<char>> {
    match o {
        Some(s) => Some(s@),
        None => None,
    }
}

pub open spec fn texts(v: Seq<String>) -> Seq<Seq<char>> {
    v.map_values(|s: String| s@)
}

impl View for Device {
    type V = DeviceView;

    open spec fn view(&self) -> DeviceView {
        DeviceView { alias: opt_text(self.alias), id: self.id@, ip: self.ip@, groups: texts(self.groups@) }
    }
}

/// A copy of a list of strings.
pub fn copy_texts(v: &Vec<String>) -> (r: Vec<String>)
    ensures
        texts(r@) == texts(v@),
{
    let mut r: Vec<String> = Vec::new();
    let n = v.len();
    for i in 0..n
        invariant
            n == v.len(),
            r@.len() == i,
            forall|j: int| 0 <= j < i ==> #[trigger] r@[j]@ == v@[j]@,
    {
        r.push(v[i].clone());
    }
    assert(texts(r@) =~= texts(v@));
    r
}

impl Device {
    /// A device with the same alias, ID, address and groups.
    pub fn duplicate(&self) -> (r: Device)
        ensures
            r@ == self@,
    {
        let alias = match &self.alias {
            Some(a) => Some(a.clone()),
            None => None,
        };
        Device { alias, id: self.id.clone(), ip: self.ip.clone(), groups: copy_texts(&self.groups) }
    }
}

/// The device table's entries as values: key and device.
pub open spec fn device_keys(e: Seq<(Seq<char>, DeviceView)>) -> Seq<Seq<char>> {
    e.map_values(|p: (Seq<char>, DeviceView)| p.0)
}

/// The position of the device stored under `key`.
pub open spec fn device_pos(e: Seq<(Seq<char>, DeviceView)>, key: Seq<char>) -> Option<int> {
    device_keys(e).index_of_first(key)
}

/// The device stored under `key`.
pub open spec fn device_lookup(e: Seq<(Seq<char>, DeviceView)>, key: Seq<char>) -> Option<DeviceView> {
    match device_pos(e, key) {
        Some(i) => Some(e[i].1),
        None => None,
    }
}

/// The alias of each device, in table order.
pub open spec fn device_aliases(e: Seq<(Seq<char>, DeviceView)>) -> Seq<Option<Seq<char>>> {
    e.map_values(|p: (Seq<char>, DeviceView)| p.1.alias)
}

/// The position of the first device whose alias is `alias`.
pub open spec fn alias_pos(e: Seq<(Seq<char>, DeviceView)>, alias: Seq<char>) -> Option<int> {
    device_aliases(e).index_of_first(Some(alias))
}

/// The key of the first device whose alias is `alias`.
pub open spec fn alias_owner(e: Seq<(Seq<char>, DeviceView)>, alias: Seq<char>) -> Option<Seq<char>> {
    match alias_pos(e, alias) {
        Some(i) => Some(e[i].0),
        None => None,
    }
}

/// The table after storing `d` under `key`: the device under `key` replaced, or a new
/// entry when there was none.
pub open spec fn devices_with(e: Seq<(Seq<char>, DeviceView)>, key: Seq<char>, d: DeviceView) -> Seq<(Seq<char>, DeviceView)> {
    match device_pos(e, key) {
        Some(i) => e.update(i, (key, d)),
        None => e.push((key, d)),
    }
}

/// `s` has `x` first at position `i`.
pub proof fn lemma_first_at<A>(s: Seq<A>, x: A, i: int)
    requires
        0 <= i < s.len(),
        s[i] == x,
        forall|j: int| 0 <= j < i ==> s[j] != x,
    ensures
        s.index_of_first(x) == Some(i),
{
    s.index_of_first_ensures(x);
    match s.index_of_first(x) {
        Some(k) => {
            if k < i {
                assert(s[k] != x);
            }
        },
        None => {
            assert(s.contains(x));
        },
    }
}

/// `s` does not have `x`.
pub proof fn lemma_absent<A>(s: Seq<A>, x: A)
    requires
        forall|j: int| 0 <= j < s.len() ==> s[j] != x,
    ensures
        s.index_of_first(x) is None,
        !s.contains(x),
{
    s.index_of_first_ensures(x);
}

/// Where `s` has no duplicates, the first position of `s[i]` is `i`.
pub proof fn lemma_first_of_distinct<A>(s: Seq<A>, i: int)
    requires
        0 <= i < s.len(),
        s.no_duplicates(),
    ensures
        s.index_of_first(s[i]) == Some(i),
{
    lemma_first_at(s, s[i], i);
}

/// The known devices, keyed by device ID; no key occurs twice.
#[derive(Debug)]
pub struct DeviceMap {
    entries: Vec<(String, Device)>,
}

impl View for DeviceMap {
    type V = Seq<(Seq<char>, DeviceView)>;

    closed spec fn view(&self) -> Seq<(Seq<char>, DeviceView)> {
        self.entries@.map_values(|p: (String, Device)| (p.0@, p.1@))
    }
}

impl DeviceMap {
    /// No key occurs twice.
    pub open spec fn wf(&self) -> bool {
        device_keys(self@).no_duplicates()
    }

    /// A table with no devices.
    pub fn new() -> (r: DeviceMap)
        ensures
            r@ == Seq::<(Seq<char>, DeviceView)>::empty(),
            r.wf(),
    {
        let r = DeviceMap { entries: Vec::new() };
        assert(r@ =~= Seq::<(Seq<char>, DeviceView)>::empty());
        r
    }

    pub fn len(&self) -> (r: usize)
        ensures
            r == self@.len(),
    {
        self.entries.len()
    }

    /// The key at position `i`.
    pub fn key_at(&self, i: usize) -> (r: &String)
        requires
            i < self@.len(),
        ensures
            r@ == self@[i as int].0,
    {
        &self.entries[i].0
    }

    /// The device at position `i`.
    pub fn device_at(&self, i: usize) -> (r: &Device)
        requires
            i < self@.len(),
        ensures
            r@ == self@[i as int].1,
    {
        &self.entries[i].1
    }

    /// The position of the device stored under `key`.
    pub fn position(&self, key: &str) -> (r: Option<usize>)
        ensures
            r matches Some(i) ==> device_pos(self@, key@) == Some(i as int) && i < self@.len()
                && self@[i as int].0 == key@,
            r is None ==> device_pos(self@, key@) is None,
    {
        let n = self.entries.len();
        for i in 0..n
            invariant
                n == self@.len(),
                forall|j: int| 0 <= j < i ==> device_keys(self@)[j] != key@,
        {
            if str_eq(self.entries[i].0.as_str(), key) {
                proof {
                    lemma_first_at(device_keys(self@), key@, i as int);
                }
                return Some(i);
            }
        }
        proof {
            lemma_absent(device_keys(self@), key@);
        }
        None
    }

    /// Whether a device is stored under `key`.
    pub fn contains_key(&self, key: &str) -> (r: bool)
        ensures
            r == (device_pos(self@, key@) is Some),
    {
        self.position(key).is_some()
    }

    /// The device stored under `key`.
    pub fn get(&self, key: &str) -> (r: Option<&Device>)
        ensures
            r matches Some(d) ==> device_lookup(self@, key@) == Some(d@),
            r is None ==> device_lookup(self@, key@) is None,
    {
        match self.position(key) {
            Some(i) => Some(&self.entries[i].1),
            None => None,
        }
    }

    /// The position of the first device whose alias is `alias`.
    pub fn alias_position(&self, alias: &str) -> (r: Option<usize>)
        ensures
            r matches Some(i) ==> alias_pos(self@, alias@) == Some(i as int) && i < self@.len()
                && self@[i as int].1.alias == Some(alias@),
            r is None ==> alias_pos(self@, alias@) is None,
    {
        let ghost aliases = device_aliases(self@);
        let n = self.entries.len();
        for i in 0..n
            invariant
                n == self@.len(),
                aliases == device_aliases(self@),
                forall|j: int| 0 <= j < i ==> aliases[j] != Some(alias@),
        {
            let found = match &self.entries[i].1.alias {
                Some(a) => str_eq(a.as_str(), alias),
                None => false,
            };
            if found {
                proof {
                    lemma_first_at(aliases, Some(alias@), i as int);
                }
                return Some(i);
            }
        }
        proof {
            lemma_absent(aliases, Some(alias@));
        }
        None
    }

    /// The key of the first device whose alias is `alias`.
    pub fn alias_owner(&self, alias: &str) -> (r: Option<String>)
        ensures
            r matches Some(k) ==> alias_owner(self@, alias@) == Some(k@),
            r is None ==> alias_owner(self@, alias@) is None,
    {
        match self.alias_position(alias) {
            Some(i) => Some(self.entries[i].0.clone()),
            None => None,
        }
    }

    /// Stores `d` under `key`, replacing the device there; a new key goes last.
    pub fn insert(&mut self, key: String, d: Device)
        requires
            old(self).wf(),
        ensures
            final(self).wf(),
            final(self)@ == devices_with(old(self)@, key@, d@),
    {
        let ghost k = key@;
        let ghost dv = d@;
        proof {
            device_keys(old(self)@).index_of_first_ensures(k);
        }
        match self.position(key.as_str()) {
            Some(i) => {
                self.entries.set(i, (key, d));
                proof {
                    assert(self@ =~= old(self)@.update(i as int, (k, dv)));
                    assert(device_keys(self@) =~= device_keys(old(self)@));
                }
            },
            None => {
                self.entries.push((key, d));
                proof {
                    assert(self@ =~= old(self)@.push((k, dv)));
                    assert(device_keys(self@) =~= device_keys(old(self)@).push(k));
                }
            },
        }
    }

    /// A table with the same entries.
    pub fn duplicate(&self) -> (r: DeviceMap)
        ensures
            r@ == self@,
    {
        let mut entries: Vec<(String, Device)> = Vec::new();
        let n = self.entries.len();
        for i in 0..n
            invariant
                n == self.entries@.len(),
                entries@.len() == i,
                forall|j: int| 0 <= j < i ==> (#[trigger] entries@[j]).0@ == self.entries@[j].0@
                    && entries@[j].1@ == self.entries@[j].1@,
        {
            entries.push((self.entries[i].0.clone(), self.entries[i].1.duplicate()));
        }
        let r = DeviceMap { entries };
        assert(r@ =~= self@);
        r
    }

    /// Replaces the device at position `i`, keeping its key.
    pub fn replace_at(&mut self, i: usize, d: Device)
        requires
            old(self).wf(),
            i < old(self)@.len(),
        ensures
            final(self).wf(),
            final(self)@ == old(self)@.update(i as int, (old(self)@[i as int].0, d@)),
    {
        let key = self.entries[i].0.clone();
        self.entries.set(i, (key, d));
        proof {
            assert(self@ =~= old(self)@.update(i as int, (old(self)@[i as int].0, d@)));
            assert(device_keys(self@) =~= device_keys(old(self)@));
        }
    }
}

/// The configuration file's contents.
pub struct Config {
    pub network: NetworkConfig,
    pub devices: DeviceMap,
    pub groups: IndexMap<String, IndexSet<String>>,
}

impl Config {
    pub open spec fn wf(&self) -> bool {
        self.devices.wf()
    }

    /// The configuration written when there is no file yet: beacons on port
    /// 5625, commands on port 5600, no devices and no groups.
    pub fn default() -> (r: Config)
        ensures
            r.network.becon_port == 5625,
            r.network.command_port == 5600,
            r.devices@ == Seq::<(Seq<char>, DeviceView)>::empty(),
            group_entries(r.groups) == Seq::<(Seq<char>, Seq<Seq<char>>)>::empty(),
            r.wf(),
    {
        Config {
            network: NetworkConfig { becon_port: 5625, command_port: 5600 },
            devices: DeviceMap::new(),
            groups: groups_new(),
        }
    }
}

} // verus!
