//! Edits of the configuration: aliases and groups.
use crate::config::groups::{
    group_entries, group_names, group_pos, groups_at_mut, groups_contains, groups_get, groups_index_of,
    groups_insert, groups_len, groups_shift_remove, groups_with, groups_without, member_list,
    members_insert, members_new, members_shift_remove, members_with,
};
use crate::config::model::{
    alias_owner, copy_texts, device_keys, device_lookup, device_pos, lemma_first_of_distinct, texts,
    Config, Device, DeviceView,
};
use crate::text::{
    lemma_text_lt_irreflexive, lemma_text_lt_total, lemma_text_lt_transitive, str_eq, str_lt, text_lt,
    enclose, to_uppercase, trim, trim_spec, unicode_uppercase,
};
use vstd::prelude::*;

verus! {

/// Why an edit of the configuration was refused.
#[derive(Debug)]
pub enum ConfigError {
    EmptyAlias,
    EmptyGroupName,
    AliasTaken(String),
    DeviceNotFound(String),
    AliasNotFound(String),
    GroupExists(String),
    GroupNotFound(String),
}

/// How a command names a device: by device ID or by alias.
pub enum DeviceSelector<'a> {
    DeviceId(&'a str),
    Alias(&'a str),
}

/// A device ID as the configuration keys it: trimmed and upper-cased.
pub open spec fn normalized_id(s: Seq<char>) -> Seq<char> {
    unicode_uppercase(trim_spec(s))
}

/// The member entries after an alias changes from `old` to `new`: the old
/// entry goes and the new one is added at the end unless already there.
pub open spec fn remap_members(m: Seq<Seq<char>>, old: Seq<char>, new: Seq<char>) -> Seq<Seq<char>> {
    if m.contains(old) {
        members_with(m.remove_value(old), new)
    } else {
        m
    }
}

/// The group table after an alias changes from `old_alias` to `new`.
pub open spec fn remap_groups(
    g: Seq<(Seq<char>, Seq<Seq<char>>)>,
    old_alias: Option<Seq<char>>,
    new: Seq<char>,
) -> Seq<(Seq<char>, Seq<Seq<char>>)> {
    match old_alias {
        Some(o) => if o != new {
            Seq::new(g.len(), |i: int| (g[i].0, remap_members(g[i].1, o, new)))
        } else {
            g
        },
        None => g,
    }
}

/// `d` with a new alias.
pub open spec fn with_alias(d: DeviceView, alias: Seq<char>) -> DeviceView {
    DeviceView { alias: Some(alias), ..d }
}

/// `d` with a new list of groups.
pub open spec fn with_groups(d: DeviceView, groups: Seq<Seq<char>>) -> DeviceView {
    DeviceView { groups: groups, ..d }
}

/// `g` with every `old` replaced by `new`.
pub open spec fn renamed(g: Seq<Seq<char>>, old: Seq<char>, new: Seq<char>) -> Seq<Seq<char>> {
    g.map_values(|x: Seq<char>| if x == old { new } else { x })
}

/// Strictly increasing in `str` order, hence free of duplicates.
pub open spec fn strictly_sorted(s: Seq<Seq<char>>) -> bool {
    forall|i: int, j: int| 0 <= i < j < s.len() ==> text_lt(#[trigger] s[i], #[trigger] s[j])
}

/// `g` without the entries equal to `name`.
pub open spec fn without(g: Seq<Seq<char>>, name: Seq<char>) -> Seq<Seq<char>> {
    g.filter(|x: Seq<char>| x != name)
}

/// Every device's group list with `name` taken out.
pub open spec fn devices_leaving(e: Seq<(Seq<char>, DeviceView)>, name: Seq<char>) -> Seq<(Seq<char>, DeviceView)> {
    Seq::new(e.len(), |i: int| (e[i].0, with_groups(e[i].1, without(e[i].1.groups, name))))
}

/// The outcome that `set_alias` has on a configuration whose devices are `e`,
/// for the raw device ID and alias it was given.
pub enum AliasChange {
    Empty,
    Taken,
    Missing,
    Same,
    Assign(int),
}

pub open spec fn alias_change(e: Seq<(Seq<char>, DeviceView)>, id_in: Seq<char>, alias_in: Seq<char>) -> AliasChange {
    let id = normalized_id(id_in);
    let a = trim_spec(alias_in);
    if a.len() == 0 {
        AliasChange::Empty
    } else if alias_owner(e, a) is Some && alias_owner(e, a)->0 != id {
        AliasChange::Taken
    } else {
        match device_pos(e, id) {
            None => AliasChange::Missing,
            Some(i) => if e[i].1.alias == Some(a) {
                AliasChange::Same
            } else {
                AliasChange::Assign(i)
            },
        }
    }
}

/// What `set_alias` leaves, from devices `e` and groups `g`, given the raw
/// device ID and alias: result `r`, devices `e2`, groups `g2`.
pub open spec fn set_alias_post(
    e: Seq<(Seq<char>, DeviceView)>,
    g: Seq<(Seq<char>, Seq<Seq<char>>)>,
    id_in: Seq<char>,
    alias_in: Seq<char>,
    r: Result<bool, ConfigError>,
    e2: Seq<(Seq<char>, DeviceView)>,
    g2: Seq<(Seq<char>, Seq<Seq<char>>)>,
) -> bool {
    match alias_change(e, id_in, alias_in) {
        AliasChange::Empty => r == Err::<bool, ConfigError>(ConfigError::EmptyAlias) && e2 == e && g2 == g,
        AliasChange::Taken => (r matches Err(ConfigError::AliasTaken(x)) && x@ == trim_spec(alias_in))
            && e2 == e && g2 == g,
        AliasChange::Missing => (r matches Err(ConfigError::DeviceNotFound(x)) && x@ == normalized_id(id_in))
            && e2 == e && g2 == g,
        AliasChange::Same => r == Ok::<bool, ConfigError>(false) && e2 == e && g2 == g,
        AliasChange::Assign(i) => {
            &&& r == Ok::<bool, ConfigError>(true)
            &&& e2 == e.update(i, (e[i].0, with_alias(e[i].1, trim_spec(alias_in))))
            &&& g2 == remap_groups(g, e[i].1.alias, trim_spec(alias_in))
        },
    }
}

/// The key of the device that a selector names, when there is one.
pub open spec fn selected_key(e: Seq<(Seq<char>, DeviceView)>, selector: DeviceSelector) -> Option<Seq<char>> {
    match selector {
        DeviceSelector::DeviceId(d) => if device_pos(e, normalized_id(d@)) is Some {
            Some(normalized_id(d@))
        } else {
            None
        },
        DeviceSelector::Alias(a) => if trim_spec(a@).len() == 0 {
            None
        } else {
            alias_owner(e, trim_spec(a@))
        },
    }
}

/// The error a selector that names no device meets.
pub open spec fn selector_error(selector: DeviceSelector, x: ConfigError) -> bool {
    match selector {
        DeviceSelector::DeviceId(d) => x matches ConfigError::DeviceNotFound(s) && s@ == normalized_id(d@),
        DeviceSelector::Alias(a) => if trim_spec(a@).len() == 0 {
            x == ConfigError::EmptyAlias
        } else {
            x matches ConfigError::AliasNotFound(s) && s@ == trim_spec(a@)
        },
    }
}

/// Devices `d2` and `d` differ only in the group list, which `rename_group`
/// turned from `d`'s with `old` renamed to `new`, then sorted and freed of
/// duplicates.
pub open spec fn renamed_device(d2: DeviceView, d: DeviceView, old_name: Seq<char>, new_name: Seq<char>) -> bool {
    &&& d2.alias == d.alias
    &&& d2.id == d.id
    &&& d2.ip == d.ip
    &&& strictly_sorted(d2.groups)
    &&& d2.groups.to_set() == renamed(d.groups, old_name, new_name).to_set()
}

/// The first `upto` devices of `e2` are those of `e` after `rename_group`.
pub open spec fn renamed_upto(
    e2: Seq<(Seq<char>, DeviceView)>,
    e: Seq<(Seq<char>, DeviceView)>,
    upto: int,
    old_name: Seq<char>,
    new_name: Seq<char>,
) -> bool {
    forall|j: int| #![trigger e2[j]] 0 <= j < upto ==> e2[j].0 == e[j].0 && renamed_device(e2[j].1, e[j].1, old_name, new_name)
}

proof fn lemma_renamed_upto_extend(
    prev: Seq<(Seq<char>, DeviceView)>,
    e: Seq<(Seq<char>, DeviceView)>,
    next: Seq<(Seq<char>, DeviceView)>,
    i: int,
    old_name: Seq<char>,
    new_name: Seq<char>,
)
    requires
        0 <= i < prev.len(),
        renamed_upto(prev, e, i, old_name, new_name),
        next.len() == prev.len(),
        forall|j: int| 0 <= j < prev.len() && j != i ==> next[j] == prev[j],
        next[i].0 == e[i].0,
        renamed_device(next[i].1, e[i].1, old_name, new_name),
    ensures
        renamed_upto(next, e, i + 1, old_name, new_name),
{
    assert forall|j: int| #![trigger next[j]] 0 <= j < i + 1 implies next[j].0 == e[j].0 && renamed_device(
        next[j].1,
        e[j].1,
        old_name,
        new_name,
    ) by {
        if j < i {
            assert(next[j] == prev[j]);
            assert(renamed_device(prev[j].1, e[j].1, old_name, new_name));
        }
    }
}

/// What `rename_group` leaves, from devices `e` and groups `g`: result `r`,
/// devices `e2`, groups `g2`.
pub open spec fn rename_group_post(
    e: Seq<(Seq<char>, DeviceView)>,
    g: Seq<(Seq<char>, Seq<Seq<char>>)>,
    old_name: Seq<char>, new_name: Seq<char>,
    r: Result<bool, ConfigError>,
    e2: Seq<(Seq<char>, DeviceView)>,
    g2: Seq<(Seq<char>, Seq<Seq<char>>)>,
) -> bool {
    let o = trim_spec(old_name);
    let n = trim_spec(new_name);
    if o.len() == 0 || n.len() == 0 {
        r == Err::<bool, ConfigError>(ConfigError::EmptyGroupName) && e2 == e && g2 == g
    } else if o == n {
        r == Ok::<bool, ConfigError>(false) && e2 == e && g2 == g
    } else if group_names(g).contains(n) {
        (r matches Err(ConfigError::GroupExists(x)) && x@ == n) && e2 == e && g2 == g
    } else if group_pos(g, o) is None {
        (r matches Err(ConfigError::GroupNotFound(x)) && x@ == o) && e2 == e && g2 == g
    } else {
        &&& r == Ok::<bool, ConfigError>(true)
        &&& g2 == g.remove(group_pos(g, o)->0).push((n, g[group_pos(g, o)->0].1))
        &&& e2.len() == e.len()
        &&& renamed_upto(e2, e, e.len() as int, o, n)
    }

}

/// What `delete_group` leaves, from devices `e` and groups `g`: result `r`,
/// devices `e2`, groups `g2`.
pub open spec fn delete_group_post(
    e: Seq<(Seq<char>, DeviceView)>,
    g: Seq<(Seq<char>, Seq<Seq<char>>)>,
    name: Seq<char>,
    r: Result<bool, ConfigError>,
    e2: Seq<(Seq<char>, DeviceView)>,
    g2: Seq<(Seq<char>, Seq<Seq<char>>)>,
) -> bool {
    let n = trim_spec(name);
    if n.len() == 0 {
        r == Err::<bool, ConfigError>(ConfigError::EmptyGroupName) && e2 == e && g2 == g
    } else if group_pos(g, n) is None {
        (r matches Err(ConfigError::GroupNotFound(x)) && x@ == n) && e2 == e && g2 == g
    } else {
        &&& r == Ok::<bool, ConfigError>(true)
        &&& g2 == g.remove(group_pos(g, n)->0)
        &&& e2 == devices_leaving(e, n)
    }

}

/// What `add_group_member` leaves, from devices `e` and groups `g`: result `r`,
/// devices `e2`, groups `g2`.
pub open spec fn add_member_post(
    e: Seq<(Seq<char>, DeviceView)>,
    g: Seq<(Seq<char>, Seq<Seq<char>>)>,
    group_name: Seq<char>, selector: DeviceSelector,
    r: Result<bool, ConfigError>,
    e2: Seq<(Seq<char>, DeviceView)>,
    g2: Seq<(Seq<char>, Seq<Seq<char>>)>,
) -> bool {
    let n = trim_spec(group_name);
    if n.len() == 0 {
        r == Err::<bool, ConfigError>(ConfigError::EmptyGroupName) && e2 == e && g2 == g
    } else if selected_key(e, selector) is None {
        (r matches Err(x) && selector_error(selector, x)) && e2 == e && g2 == g
    } else if group_pos(g, n) is None {
        (r matches Err(ConfigError::GroupNotFound(x)) && x@ == n) && e2 == e && g2 == g
    } else {
        let k = selected_key(e, selector)->0;
        let gi = group_pos(g, n)->0;
        let di = device_pos(e, k)->0;
        let d = e[di].1;
        &&& r == Ok::<bool, ConfigError>(!g[gi].1.contains(k) || !d.groups.contains(n))
        &&& g2 == g.update(gi, (g[gi].0, members_with(g[gi].1, k)))
        &&& e2 == e.update(di, (k, with_groups(d, if d.groups.contains(n) { d.groups } else { d.groups.push(n) })))
    }

}

/// What `remove_group_member` leaves, from devices `e` and groups `g`: result `r`,
/// devices `e2`, groups `g2`.
pub open spec fn remove_member_post(
    e: Seq<(Seq<char>, DeviceView)>,
    g: Seq<(Seq<char>, Seq<Seq<char>>)>,
    group_name: Seq<char>, selector: DeviceSelector,
    r: Result<bool, ConfigError>,
    e2: Seq<(Seq<char>, DeviceView)>,
    g2: Seq<(Seq<char>, Seq<Seq<char>>)>,
) -> bool {
    let n = trim_spec(group_name);
    if n.len() == 0 {
        r == Err::<bool, ConfigError>(ConfigError::EmptyGroupName) && e2 == e && g2 == g
    } else if selected_key(e, selector) is None {
        (r matches Err(x) && selector_error(selector, x)) && e2 == e && g2 == g
    } else if group_pos(g, n) is None {
        (r matches Err(ConfigError::GroupNotFound(x)) && x@ == n) && e2 == e && g2 == g
    } else {
        let k = selected_key(e, selector)->0;
        let gi = group_pos(g, n)->0;
        let di = device_pos(e, k)->0;
        let d = e[di].1;
        &&& r == Ok::<bool, ConfigError>(g[gi].1.contains(k) || without(d.groups, n).len() != d.groups.len())
        &&& g2 == g.update(gi, (g[gi].0, g[gi].1.remove_value(k)))
        &&& e2 == e.update(di, (k, with_groups(d, without(d.groups, n))))
    }

}

/// What `rename_alias` leaves: the alias `current` names a device, which
/// then gets alias `replacement` as `set_alias` gives it.
pub open spec fn rename_alias_post(
    e: Seq<(Seq<char>, DeviceView)>,
    g: Seq<(Seq<char>, Seq<Seq<char>>)>,
    current: Seq<char>,
    replacement: Seq<char>,
    r: Result<bool, ConfigError>,
    e2: Seq<(Seq<char>, DeviceView)>,
    g2: Seq<(Seq<char>, Seq<Seq<char>>)>,
) -> bool {
    let c = trim_spec(current);
    let n = trim_spec(replacement);
    if c.len() == 0 || n.len() == 0 {
        r == Err::<bool, ConfigError>(ConfigError::EmptyAlias) && e2 == e && g2 == g
    } else if alias_owner(e, c) is None {
        (r matches Err(ConfigError::AliasNotFound(x)) && x@ == c) && e2 == e && g2 == g
    } else {
        set_alias_post(e, g, alias_owner(e, c)->0, n, r, e2, g2)
    }
}

/// What `remove_alias` leaves: the device with the alias gets its own device
/// ID as alias, as `set_alias` gives it.
pub open spec fn remove_alias_post(
    e: Seq<(Seq<char>, DeviceView)>,
    g: Seq<(Seq<char>, Seq<Seq<char>>)>,
    alias: Seq<char>,
    r: Result<bool, ConfigError>,
    e2: Seq<(Seq<char>, DeviceView)>,
    g2: Seq<(Seq<char>, Seq<Seq<char>>)>,
) -> bool {
    let a = trim_spec(alias);
    if a.len() == 0 {
        r == Err::<bool, ConfigError>(ConfigError::EmptyAlias) && e2 == e && g2 == g
    } else if alias_owner(e, a) is None {
        (r matches Err(ConfigError::AliasNotFound(x)) && x@ == a) && e2 == e && g2 == g
    } else {
        set_alias_post(e, g, alias_owner(e, a)->0, device_lookup(e, alias_owner(e, a)->0)->0.id, r, e2, g2)
    }
}

/// What `create_group` leaves: a new empty group at the end.
pub open spec fn create_group_post(
    e: Seq<(Seq<char>, DeviceView)>,
    g: Seq<(Seq<char>, Seq<Seq<char>>)>,
    name: Seq<char>,
    r: Result<bool, ConfigError>,
    e2: Seq<(Seq<char>, DeviceView)>,
    g2: Seq<(Seq<char>, Seq<Seq<char>>)>,
) -> bool {
    let n = trim_spec(name);
    &&& e2 == e
    &&& if n.len() == 0 {
        r == Err::<bool, ConfigError>(ConfigError::EmptyGroupName) && g2 == g
    } else if group_names(g).contains(n) {
        (r matches Err(ConfigError::GroupExists(x)) && x@ == n) && g2 == g
    } else {
        r == Ok::<bool, ConfigError>(true) && g2 == g.push((n, Seq::<Seq<char>>::empty()))
    }
}

/// The selector a membership command builds: by device ID when one is
/// given, else by alias.
pub open spec fn membership_selector(device_id: Option<String>, alias: Option<String>, s: DeviceSelector) -> bool {
    match device_id {
        Some(d) => s matches DeviceSelector::DeviceId(x) && x@ == d@,
        None => s matches DeviceSelector::Alias(x) && x@ == alias->0@,
    }
}

/// The selected key names a stored device.
pub proof fn lemma_selected_key_stored(e: Seq<(Seq<char>, DeviceView)>, selector: DeviceSelector)
    requires
        device_keys(e).no_duplicates(),
        selected_key(e, selector) is Some,
    ensures
        device_pos(e, selected_key(e, selector)->0) is Some,
{
    if let DeviceSelector::Alias(a) = selector {
        let aliases = crate::config::model::device_aliases(e);
        aliases.index_of_first_ensures(Some(trim_spec(a@)));
        let i = crate::config::model::alias_pos(e, trim_spec(a@))->0;
        lemma_first_of_distinct(device_keys(e), i);
    }
}

/// A device ID as the configuration keys it.
pub fn normalize_device_id(device_id: &str) -> (r: String)
    ensures
        r@ == normalized_id(device_id@),
{
    to_uppercase(trim(device_id))
}

/// An alias, trimmed; refused when nothing is left.
pub fn normalize_alias(alias: &str) -> (r: Result<String, ConfigError>)
    ensures
        trim_spec(alias@).len() == 0 ==> r == Err::<String, ConfigError>(ConfigError::EmptyAlias),
        trim_spec(alias@).len() > 0 ==> (r matches Ok(a) && a@ == trim_spec(alias@)),
{
    let a = trim(alias);
    if a.is_empty() {
        Err(ConfigError::EmptyAlias)
    } else {
        Ok(a.to_owned())
    }
}

/// A group name, trimmed; refused when nothing is left.
pub fn normalize_group_name(name: &str) -> (r: Result<String, ConfigError>)
    ensures
        trim_spec(name@).len() == 0 ==> r == Err::<String, ConfigError>(ConfigError::EmptyGroupName),
        trim_spec(name@).len() > 0 ==> (r matches Ok(a) && a@ == trim_spec(name@)),
{
    let a = trim(name);
    if a.is_empty() {
        Err(ConfigError::EmptyGroupName)
    } else {
        Ok(a.to_owned())
    }
}

/// The key of the first device whose alias is `alias`.
pub fn find_device_id_by_alias(config: &Config, alias: &str) -> (r: Option<String>)
    ensures
        r matches Some(k) ==> alias_owner(config.devices@, alias@) == Some(k@),
        r is None ==> alias_owner(config.devices@, alias@) is None,
{
    config.devices.alias_owner(alias)
}

/// Rewrites group member entries that name the old alias of a device to its
/// new alias.
fn remap_group_member_entries(config: &mut Config, old_alias: Option<&str>, new_alias: &str)
    ensures
        final(config).network == old(config).network,
        final(config).devices == old(config).devices,
        group_entries(final(config).groups) == remap_groups(
            group_entries(old(config).groups),
            match old_alias {
                Some(o) => Some(o@),
                None => None,
            },
            new_alias@,
        ),
{
    let old_alias = match old_alias {
        Some(o) => o,
        None => {
            return;
        },
    };
    if str_eq(old_alias, new_alias) {
        return;
    }
    let ghost g = group_entries(config.groups);
    let n = groups_len(&config.groups);
    for i in 0..n
        invariant
            n == g.len(),
            old_alias@ != new_alias@,
            config.network == old(config).network,
            config.devices == old(config).devices,
            g == group_entries(old(config).groups),
            group_entries(config.groups) == Seq::new(
                g.len(),
                |j: int|
                    if j < i {
                        (g[j].0, remap_members(g[j].1, old_alias@, new_alias@))
                    } else {
                        g[j]
                    },
            ),
    {
        proof {
            g[i as int].1.index_of_first_ensures(old_alias@);
        }
        let members = groups_at_mut(&mut config.groups, i);
        if members_shift_remove(members, old_alias) {
            members_insert(members, new_alias.to_owned());
        }
        assert(group_entries(config.groups) =~= Seq::new(
            g.len(),
            |j: int|
                if j < i + 1 {
                    (g[j].0, remap_members(g[j].1, old_alias@, new_alias@))
                } else {
                    g[j]
                },
        ));
    }
    assert(group_entries(config.groups) =~= remap_groups(g, Some(old_alias@), new_alias@));
}

/// Sets the alias of a device. The alias must not be in use by another
/// device; group entries that named the old alias follow the change. Says
/// whether anything changed.
pub fn set_alias(config: &mut Config, device_id: &str, alias: &str) -> (r: Result<bool, ConfigError>)
    requires
        old(config).wf(),
    ensures
        final(config).wf(),
        final(config).network == old(config).network,
        set_alias_post(
            old(config).devices@,
            group_entries(old(config).groups),
            device_id@,
            alias@,
            r,
            final(config).devices@,
            group_entries(final(config).groups),
        ),
{
    let device_id = normalize_device_id(device_id);
    let alias = match normalize_alias(alias) {
        Ok(a) => a,
        Err(e) => {
            return Err(e);
        },
    };
    let existing_owner = find_device_id_by_alias(config, alias.as_str());
    if let Some(owner) = &existing_owner {
        if !str_eq(owner.as_str(), device_id.as_str()) {
            return Err(ConfigError::AliasTaken(alias));
        }
    }
    let i = match config.devices.position(device_id.as_str()) {
        Some(i) => i,
        None => {
            return Err(ConfigError::DeviceNotFound(device_id));
        },
    };
    let device = config.devices.device_at(i);
    let same = match &device.alias {
        Some(a) => str_eq(a.as_str(), alias.as_str()),
        None => false,
    };
    if same {
        return Ok(false);
    }
    let old_alias = match &device.alias {
        Some(a) => Some(a.clone()),
        None => None,
    };
    let updated = Device {
        alias: Some(alias.clone()),
        id: device.id.clone(),
        ip: device.ip.clone(),
        groups: copy_texts(&device.groups),
    };
    config.devices.replace_at(i, updated);
    let old_ref = match &old_alias {
        Some(a) => Some(a.as_str()),
        None => None,
    };
    remap_group_member_entries(config, old_ref, alias.as_str());
    Ok(true)
}

/// Renames an alias: the device that has alias `old` gets alias `new`, as
/// `set_alias` does it.
pub fn rename_alias(config: &mut Config, current: &str, replacement: &str) -> (r: Result<bool, ConfigError>)
    requires
        old(config).wf(),
    ensures
        final(config).wf(),
        final(config).network == old(config).network,
        rename_alias_post(
            old(config).devices@,
            group_entries(old(config).groups),
            current@,
            replacement@,
            r,
            final(config).devices@,
            group_entries(final(config).groups),
        ),

{
    let current = match normalize_alias(current) {
        Ok(a) => a,
        Err(e) => {
            return Err(e);
        },
    };
    let replacement = match normalize_alias(replacement) {
        Ok(a) => a,
        Err(e) => {
            return Err(e);
        },
    };
    let device_id = match find_device_id_by_alias(config, current.as_str()) {
        Some(d) => d,
        None => {
            return Err(ConfigError::AliasNotFound(current));
        },
    };
    set_alias(config, device_id.as_str(), replacement.as_str())
}

/// Removes an alias: the device that has it gets its own device ID as alias,
/// as `set_alias` does it.
pub fn remove_alias(config: &mut Config, alias: &str) -> (r: Result<bool, ConfigError>)
    requires
        old(config).wf(),
    ensures
        final(config).wf(),
        final(config).network == old(config).network,
        remove_alias_post(
            old(config).devices@,
            group_entries(old(config).groups),
            alias@,
            r,
            final(config).devices@,
            group_entries(final(config).groups),
        ),

{
    let alias = match normalize_alias(alias) {
        Ok(a) => a,
        Err(e) => {
            return Err(e);
        },
    };
    let device_id = match find_device_id_by_alias(config, alias.as_str()) {
        Some(d) => d,
        None => {
            return Err(ConfigError::AliasNotFound(alias));
        },
    };
    proof {
        let e = config.devices@;
        let i = crate::config::model::alias_pos(e, alias@)->0;
        crate::config::model::device_aliases(e).index_of_first_ensures(Some(alias@));
        lemma_first_of_distinct(device_keys(e), i);
    }
    let replacement_alias = match config.devices.get(device_id.as_str()) {
        Some(d) => d.id.clone(),
        None => {
            return Err(ConfigError::DeviceNotFound(device_id));
        },
    };
    set_alias(config, device_id.as_str(), replacement_alias.as_str())
}


/// The key of the device a selector names.
fn resolve_device_id(config: &Config, selector: DeviceSelector<'_>) -> (r: Result<String, ConfigError>)
    requires
        config.wf(),
    ensures
        selected_key(config.devices@, selector) matches Some(k) ==> (r matches Ok(s) && s@ == k),
        selected_key(config.devices@, selector) is None ==> (r matches Err(x) && selector_error(selector, x)),
{
    match selector {
        DeviceSelector::DeviceId(device_id) => {
            let normalized = normalize_device_id(device_id);
            if !config.devices.contains_key(normalized.as_str()) {
                return Err(ConfigError::DeviceNotFound(normalized));
            }
            Ok(normalized)
        },
        DeviceSelector::Alias(alias) => {
            let alias = match normalize_alias(alias) {
                Ok(a) => a,
                Err(e) => {
                    return Err(e);
                },
            };
            match find_device_id_by_alias(config, alias.as_str()) {
                Some(k) => Ok(k),
                None => Err(ConfigError::AliasNotFound(alias)),
            }
        },
    }
}

/// The device a selector names.
pub fn resolve_device(config: &Config, selector: DeviceSelector<'_>) -> (r: Result<Device, ConfigError>)
    requires
        config.wf(),
    ensures
        selected_key(config.devices@, selector) matches Some(k) ==> (r matches Ok(d) && device_lookup(
            config.devices@,
            k,
        ) == Some(d@)),
        selected_key(config.devices@, selector) is None ==> (r matches Err(x) && selector_error(selector, x)),
{
    proof {
        if selected_key(config.devices@, selector) is Some {
            lemma_selected_key_stored(config.devices@, selector);
        }
    }
    let device_id = match resolve_device_id(config, selector) {
        Ok(k) => k,
        Err(e) => {
            return Err(e);
        },
    };
    match config.devices.get(device_id.as_str()) {
        Some(d) => Ok(d.duplicate()),
        None => Err(ConfigError::DeviceNotFound(device_id)),
    }
}

/// Whether `name` is in the list.
fn contains_text(v: &Vec<String>, name: &str) -> (r: bool)
    ensures
        r == texts(v@).contains(name@),
{
    let n = v.len();
    for i in 0..n
        invariant
            n == v.len(),
            forall|j: int| 0 <= j < i ==> texts(v@)[j] != name@,
    {
        if str_eq(v[i].as_str(), name) {
            assert(texts(v@)[i as int] == name@);
            return true;
        }
    }
    false
}

/// The list without the entries equal to `name` (`Vec::retain`).
fn without_entry(v: &Vec<String>, name: &str) -> (r: Vec<String>)
    ensures
        texts(r@) == without(texts(v@), name@),
{
    let mut r: Vec<String> = Vec::new();
    let n = v.len();
    let ghost t = texts(v@);
    for i in 0..n
        invariant
            n == v.len(),
            t == texts(v@),
            texts(r@) == without(t.take(i as int), name@),
    {
        proof {
            assert(t.take(i + 1).drop_last() =~= t.take(i as int));
            assert(t.take(i + 1).last() == t[i as int]);
            reveal(Seq::filter);
        }
        if !str_eq(v[i].as_str(), name) {
            r.push(v[i].clone());
            assert(texts(r@) =~= without(t.take(i as int), name@).push(t[i as int]));
        }
    }
    assert(t.take(n as int) =~= t);
    r
}

/// Inserting into a sequence adds exactly that element to its set.
proof fn lemma_insert_to_set<A>(s: Seq<A>, p: int, x: A)
    requires
        0 <= p <= s.len(),
    ensures
        s.insert(p, x).to_set() == s.to_set().insert(x),
{
    s.insert_ensures(p, x);
    let t = s.insert(p, x);
    assert forall|y: A| t.to_set().contains(y) == s.to_set().insert(x).contains(y) by {
        if t.to_set().contains(y) {
            let k = choose|k: int| 0 <= k < t.len() && t[k] == y;
            if k < p {
                assert(s[k] == y);
            } else if k > p {
                assert(s[k - 1] == y);
            }
        }
        if s.to_set().contains(y) {
            let k = choose|k: int| 0 <= k < s.len() && s[k] == y;
            if k < p {
                assert(t[k] == y);
            } else {
                assert(t[k + 1] == y);
            }
        }
        if y == x {
            assert(t[p] == y);
        }
    }
    assert(t.to_set() =~= s.to_set().insert(x));
}

/// Adds `x` to a strictly sorted list, where it belongs, unless it is there.
fn insert_sorted_unique(r: &mut Vec<String>, x: String)
    requires
        strictly_sorted(texts(old(r)@)),
    ensures
        strictly_sorted(texts(final(r)@)),
        texts(final(r)@).to_set() == texts(old(r)@).to_set().insert(x@),
{
    let n = r.len();
    let mut p: usize = 0;
    while p < n && str_lt(r[p].as_str(), x.as_str())
        invariant
            p <= n,
            n == r.len(),
            r == old(r),
            forall|j: int| 0 <= j < p ==> text_lt(#[trigger] texts(r@)[j], x@),
        decreases n - p,
    {
        p = p + 1;
    }
    let ghost s = texts(r@);
    if p < n && str_eq(r[p].as_str(), x.as_str()) {
        proof {
            assert(s[p as int] == x@);
            assert(s.to_set().insert(x@) =~= s.to_set());
        }
        return;
    }
    let ghost xv = x@;
    r.insert(p, x);
    proof {
        assert(texts(r@) =~= s.insert(p as int, xv));
        lemma_insert_to_set(s, p as int, xv);
        s.insert_ensures(p as int, xv);
        let t = s.insert(p as int, xv);
        if p < n {
            lemma_text_lt_total(s[p as int], xv);
        }
        assert forall|i: int, j: int| 0 <= i < j < t.len() implies text_lt(#[trigger] t[i], #[trigger] t[j]) by {
            if j < p {
                assert(t[i] == s[i] && t[j] == s[j]);
            } else if j == p {
                assert(t[i] == s[i]);
            } else if i < p {
                assert(t[i] == s[i] && t[j] == s[j - 1]);
                assert(text_lt(s[i], xv));
                if j - 1 > p {
                    assert(text_lt(s[p as int], s[j - 1]));
                    lemma_text_lt_transitive(xv, s[p as int], s[j - 1]);
                }
                lemma_text_lt_transitive(s[i], xv, s[j - 1]);
            } else if i == p {
                assert(t[j] == s[j - 1]);
                if j - 1 > p {
                    assert(text_lt(s[p as int], s[j - 1]));
                    lemma_text_lt_transitive(xv, s[p as int], s[j - 1]);
                }
            } else {
                assert(t[i] == s[i - 1] && t[j] == s[j - 1]);
            }
        }
    }
}

/// The list with `old_name` renamed to `new_name`, sorted, without duplicates.
fn renamed_sorted(v: &Vec<String>, old_name: &str, new_name: &str) -> (r: Vec<String>)
    ensures
        strictly_sorted(texts(r@)),
        texts(r@).to_set() == renamed(texts(v@), old_name@, new_name@).to_set(),
{
    let mut r: Vec<String> = Vec::new();
    let n = v.len();
    let ghost t = texts(v@);
    assert(texts(r@).to_set() =~= renamed(t.take(0), old_name@, new_name@).to_set());
    for i in 0..n
        invariant
            n == v.len(),
            t == texts(v@),
            strictly_sorted(texts(r@)),
            texts(r@).to_set() == renamed(t.take(i as int), old_name@, new_name@).to_set(),
    {
        let x = if str_eq(v[i].as_str(), old_name) {
            new_name.to_owned()
        } else {
            v[i].clone()
        };
        proof {
            let before = renamed(t.take(i as int), old_name@, new_name@);
            assert(renamed(t.take(i + 1), old_name@, new_name@) =~= before.push(x@));
            before.lemma_push_to_set_commute(x@);
        }
        insert_sorted_unique(&mut r, x);
    }
    assert(t.take(n as int) =~= t);
    r
}

/// Creates an empty group.
pub fn create_group(config: &mut Config, name: &str) -> (r: Result<bool, ConfigError>)
    requires
        old(config).wf(),
    ensures
        final(config).wf(),
        final(config).network == old(config).network,
        create_group_post(
            old(config).devices@,
            group_entries(old(config).groups),
            name@,
            r,
            final(config).devices@,
            group_entries(final(config).groups),
        ),

{
    let name = match normalize_group_name(name) {
        Ok(n) => n,
        Err(e) => {
            return Err(e);
        },
    };
    if groups_contains(&config.groups, name.as_str()) {
        return Err(ConfigError::GroupExists(name));
    }
    proof {
        group_names(group_entries(config.groups)).index_of_first_ensures(name@);
    }
    groups_insert(&mut config.groups, name, members_new());
    Ok(true)
}

/// Renames a group, and the group in every device's list; each device's list
/// is then sorted and freed of duplicates.
pub fn rename_group(config: &mut Config, old_name: &str, new_name: &str) -> (r: Result<bool, ConfigError>)
    requires
        old(config).wf(),
    ensures
        final(config).wf(),
        final(config).network == old(config).network,
        rename_group_post(
            old(config).devices@,
            group_entries(old(config).groups),
            old_name@,
            new_name@,
            r,
            final(config).devices@,
            group_entries(final(config).groups),
        ),

{
    let old_name = match normalize_group_name(old_name) {
        Ok(n) => n,
        Err(e) => {
            return Err(e);
        },
    };
    let new_name = match normalize_group_name(new_name) {
        Ok(n) => n,
        Err(e) => {
            return Err(e);
        },
    };
    if str_eq(old_name.as_str(), new_name.as_str()) {
        return Ok(false);
    }
    if groups_contains(&config.groups, new_name.as_str()) {
        return Err(ConfigError::GroupExists(new_name));
    }
    let ghost g = group_entries(config.groups);
    let members = match groups_shift_remove(&mut config.groups, old_name.as_str()) {
        Some(m) => m,
        None => {
            return Err(ConfigError::GroupNotFound(old_name));
        },
    };
    proof {
        let i = group_pos(g, old_name@)->0;
        group_names(g).index_of_first_ensures(old_name@);
        group_names(g).index_of_first_ensures(new_name@);
        let g1 = g.remove(i);
        assert forall|j: int| 0 <= j < g1.len() implies group_names(g1)[j] != new_name@ by {
            if j < i {
                assert(group_names(g1)[j] == group_names(g)[j]);
            } else {
                assert(group_names(g1)[j] == group_names(g)[j + 1]);
            }
        }
        crate::config::model::lemma_absent(group_names(g1), new_name@);
    }
    groups_insert(&mut config.groups, new_name.clone(), members);
    let ghost e = config.devices@;
    let ghost g2 = group_entries(config.groups);
    let n = config.devices.len();
    let mut i: usize = 0;
    while i < n
        invariant
            i <= n,
            n == e.len(),
            config.wf(),
            config.network == old(config).network,
            group_entries(config.groups) == g2,
            config.devices@.len() == n,
            renamed_upto(config.devices@, e, i as int, old_name@, new_name@),
            forall|j: int| i <= j < n ==> #[trigger] config.devices@[j] == e[j],
        decreases n - i,
    {
        let d = config.devices.device_at(i);
        let groups = renamed_sorted(&d.groups, old_name.as_str(), new_name.as_str());
        let alias = match &d.alias {
            Some(a) => Some(a.clone()),
            None => None,
        };
        let updated = Device { alias, id: d.id.clone(), ip: d.ip.clone(), groups };
        let ghost prev = config.devices@;
        config.devices.replace_at(i, updated);
        proof {
            lemma_renamed_upto_extend(prev, e, config.devices@, i as int, old_name@, new_name@);
        }
        assert forall|j: int| i + 1 <= j < n implies #[trigger] config.devices@[j] == e[j] by {
            assert(config.devices@[j] == prev[j]);
        }
        i = i + 1;
    }
    Ok(true)
}

/// Deletes a group and takes it out of every device's list.
pub fn delete_group(config: &mut Config, name: &str) -> (r: Result<bool, ConfigError>)
    requires
        old(config).wf(),
    ensures
        final(config).wf(),
        final(config).network == old(config).network,
        delete_group_post(
            old(config).devices@,
            group_entries(old(config).groups),
            name@,
            r,
            final(config).devices@,
            group_entries(final(config).groups),
        ),
        r is Ok ==> forall|i: int|
            0 <= i < final(config).devices@.len() ==> !(#[trigger] final(config).devices@[i]).1.groups.contains(
                trim_spec(name@),
            ),
{
    let name = match normalize_group_name(name) {
        Ok(n) => n,
        Err(e) => {
            return Err(e);
        },
    };
    match groups_shift_remove(&mut config.groups, name.as_str()) {
        Some(_) => {},
        None => {
            return Err(ConfigError::GroupNotFound(name));
        },
    }
    let ghost e = config.devices@;
    let ghost g2 = group_entries(config.groups);
    let n = config.devices.len();
    for i in 0..n
        invariant
            n == e.len(),
            config.wf(),
            config.network == old(config).network,
            group_entries(config.groups) == g2,
            config.devices@ == Seq::new(
                e.len(),
                |j: int|
                    if j < i {
                        (e[j].0, with_groups(e[j].1, without(e[j].1.groups, name@)))
                    } else {
                        e[j]
                    },
            ),
    {
        let d = config.devices.device_at(i);
        let groups = without_entry(&d.groups, name.as_str());
        let alias = match &d.alias {
            Some(a) => Some(a.clone()),
            None => None,
        };
        let updated = Device { alias, id: d.id.clone(), ip: d.ip.clone(), groups };
        config.devices.replace_at(i, updated);
        assert(config.devices@ =~= Seq::new(
            e.len(),
            |j: int|
                if j < i + 1 {
                    (e[j].0, with_groups(e[j].1, without(e[j].1.groups, name@)))
                } else {
                    e[j]
                },
        ));
    }
    assert(config.devices@ =~= devices_leaving(e, name@));
    proof {
        assert forall|i: int| 0 <= i < config.devices@.len() implies !(#[trigger] config.devices@[i]).1.groups.contains(
            name@,
        ) by {
            crate::laws::lemma_without_contains(e[i].1.groups, name@);
        }
    }
    Ok(true)
}

/// Adds a device to a group: its key joins the member set and the group joins
/// the device's list. Says whether either changed.
pub fn add_group_member(config: &mut Config, group_name: &str, selector: DeviceSelector<'_>) -> (r: Result<
    bool,
    ConfigError,
>)
    requires
        old(config).wf(),
    ensures
        final(config).wf(),
        final(config).network == old(config).network,
        add_member_post(
            old(config).devices@,
            group_entries(old(config).groups),
            group_name@,
            selector,
            r,
            final(config).devices@,
            group_entries(final(config).groups),
        ),

{
    let group_name = match normalize_group_name(group_name) {
        Ok(n) => n,
        Err(e) => {
            return Err(e);
        },
    };
    proof {
        if selected_key(config.devices@, selector) is Some {
            lemma_selected_key_stored(config.devices@, selector);
        }
    }
    let device_id = match resolve_device_id(config, selector) {
        Ok(k) => k,
        Err(e) => {
            return Err(e);
        },
    };
    let gi = match groups_index_of(&config.groups, group_name.as_str()) {
        Some(i) => i,
        None => {
            return Err(ConfigError::GroupNotFound(group_name));
        },
    };
    proof {
        group_names(group_entries(config.groups)).index_of_first_ensures(group_name@);
    }
    let mut changed = false;
    let members = groups_at_mut(&mut config.groups, gi);
    if members_insert(members, device_id.clone()) {
        changed = true;
    }
    let di = match config.devices.position(device_id.as_str()) {
        Some(i) => i,
        None => {
            return Err(ConfigError::DeviceNotFound(device_id));
        },
    };
    let d = config.devices.device_at(di);
    if !contains_text(&d.groups, group_name.as_str()) {
        let mut groups = copy_texts(&d.groups);
        let ghost before = texts(groups@);
        let ghost gname = group_name@;
        groups.push(group_name);
        assert(texts(groups@) =~= before.push(gname));
        let alias = match &d.alias {
            Some(a) => Some(a.clone()),
            None => None,
        };
        let updated = Device { alias, id: d.id.clone(), ip: d.ip.clone(), groups };
        config.devices.replace_at(di, updated);
        changed = true;
    } else {
        proof {
            let e0 = config.devices@;
            assert(with_groups(e0[di as int].1, e0[di as int].1.groups) == e0[di as int].1);
            assert(config.devices@ =~= e0.update(di as int, (e0[di as int].0, with_groups(e0[di as int].1, e0[di as int].1.groups))));
        }
    }
    Ok(changed)
}

/// Takes a device out of a group: its key leaves the member set and the group
/// leaves the device's list. Says whether either changed.
pub fn remove_group_member(config: &mut Config, group_name: &str, selector: DeviceSelector<'_>) -> (r: Result<
    bool,
    ConfigError,
>)
    requires
        old(config).wf(),
    ensures
        final(config).wf(),
        final(config).network == old(config).network,
        remove_member_post(
            old(config).devices@,
            group_entries(old(config).groups),
            group_name@,
            selector,
            r,
            final(config).devices@,
            group_entries(final(config).groups),
        ),

{
    let group_name = match normalize_group_name(group_name) {
        Ok(n) => n,
        Err(e) => {
            return Err(e);
        },
    };
    proof {
        if selected_key(config.devices@, selector) is Some {
            lemma_selected_key_stored(config.devices@, selector);
        }
    }
    let device_id = match resolve_device_id(config, selector) {
        Ok(k) => k,
        Err(e) => {
            return Err(e);
        },
    };
    let gi = match groups_index_of(&config.groups, group_name.as_str()) {
        Some(i) => i,
        None => {
            return Err(ConfigError::GroupNotFound(group_name));
        },
    };
    proof {
        group_names(group_entries(config.groups)).index_of_first_ensures(group_name@);
    }
    let mut changed = false;
    let members = groups_at_mut(&mut config.groups, gi);
    if members_shift_remove(members, device_id.as_str()) {
        changed = true;
    }
    let di = match config.devices.position(device_id.as_str()) {
        Some(i) => i,
        None => {
            return Err(ConfigError::DeviceNotFound(device_id));
        },
    };
    let d = config.devices.device_at(di);
    let previous_len = d.groups.len();
    let groups = without_entry(&d.groups, group_name.as_str());
    if groups.len() != previous_len {
        changed = true;
    }
    let alias = match &d.alias {
        Some(a) => Some(a.clone()),
        None => None,
    };
    let updated = Device { alias, id: d.id.clone(), ip: d.ip.clone(), groups };
    config.devices.replace_at(di, updated);
    Ok(changed)
}

/// The text a refused edit is reported with.
pub open spec fn config_error_text(e: ConfigError) -> Seq<char> {
    match e {
        ConfigError::EmptyAlias => "Alias must not be empty"@,
        ConfigError::EmptyGroupName => "Group name must not be empty"@,
        ConfigError::AliasTaken(a) => "Alias '"@ + a@ + "' is already used by another device"@,
        ConfigError::DeviceNotFound(d) => "Device ID '"@ + d@ + "' not found"@,
        ConfigError::AliasNotFound(a) => "Alias '"@ + a@ + "' not found"@,
        ConfigError::GroupExists(n) => "Group '"@ + n@ + "' already exists"@,
        ConfigError::GroupNotFound(n) => "Group '"@ + n@ + "' not found"@,
    }
}

impl ConfigError {
    /// The text this error is reported with.
    pub fn message(&self) -> (r: String)
        ensures
            r@ == config_error_text(*self),
    {
        match self {
            ConfigError::EmptyAlias => "Alias must not be empty".to_owned(),
            ConfigError::EmptyGroupName => "Group name must not be empty".to_owned(),
            ConfigError::AliasTaken(a) => enclose("Alias '", a.as_str(), "' is already used by another device"),
            ConfigError::DeviceNotFound(d) => enclose("Device ID '", d.as_str(), "' not found"),
            ConfigError::AliasNotFound(a) => enclose("Alias '", a.as_str(), "' not found"),
            ConfigError::GroupExists(n) => enclose("Group '", n.as_str(), "' already exists"),
            ConfigError::GroupNotFound(n) => enclose("Group '", n.as_str(), "' not found"),
        }
    }
}

} // verus!
