//! What the subcommands decide: the settings a send carries, and the edits and
//! listings of the `alias` and `group` subcommands. Printing and saving are
//! the caller's.
use crate::cli::args::{
    AliasCommand, AliasShowArgs, GroupCommand, GroupMembershipArgs, LightModeState, PowerState, SendArgs,
};
use crate::config::groups::{
    group_entries, groups_entry_at, groups_get, groups_len, member_list, members_at, members_len,
};
use crate::config::model::{device_lookup, texts, Config, Device, DeviceMap, DeviceView};
use crate::config::ops::{
    self, create_group, delete_group, remove_alias, remove_group_member, rename_alias, rename_group,
    selected_key, selector_error, set_alias, ConfigError, DeviceSelector,
};
use crate::device::command::CommandOptions;
use crate::device::state_match::RequestedState;
use crate::device::target::Target;
use crate::device::LightMode;
use crate::text::{str_lt, text_lt, to_uppercase, unicode_uppercase};
use vstd::prelude::*;

verus! {

/// `on` as `true`, `off` as `false`.
pub open spec fn switch_of(s: Option<PowerState>) -> Option<bool> {
    match s {
        Some(p) => Some(p == PowerState::On),
        None => None,
    }
}

/// The light colour a command-line colour names.
pub open spec fn light_mode_of_arg(c: Option<LightModeState>) -> Option<LightMode> {
    match c {
        Some(LightModeState::Warm) => Some(LightMode::Warm),
        Some(LightModeState::Cool) => Some(LightMode::Cool),
        Some(LightModeState::Daylight) => Some(LightMode::Daylight),
        None => None,
    }
}

fn switch(s: Option<PowerState>) -> (r: Option<bool>)
    ensures
        r == switch_of(s),
{
    match s {
        Some(p) => Some(p == PowerState::On),
        None => None,
    }
}

/// The settings a send command carries.
pub fn command_options_from_args(args: &SendArgs) -> (r: CommandOptions)
    ensures
        r.led == switch_of(args.led),
        r.power == switch_of(args.power),
        r.sleep == switch_of(args.sleep),
        r.speed == args.speed,
        r.timer == args.timer,
        r.brightness == args.set_brightness,
        r.light_mode == light_mode_of_arg(args.color),
{
    CommandOptions {
        led: switch(args.led),
        power: switch(args.power),
        sleep: switch(args.sleep),
        speed: args.speed,
        timer: args.timer,
        brightness: args.set_brightness,
        light_mode: parse_light_mode(args),
    }
}

/// The state a send command waits to see.
pub fn requested_state_from_args(args: &SendArgs) -> (r: RequestedState)
    ensures
        r.led == switch_of(args.led),
        r.power == switch_of(args.power),
        r.sleep == switch_of(args.sleep),
        r.speed == args.speed,
        r.timer == args.timer,
        r.brightness == args.set_brightness,
        r.light_mode == light_mode_of_arg(args.color),
{
    RequestedState {
        led: switch(args.led),
        power: switch(args.power),
        sleep: switch(args.sleep),
        speed: args.speed,
        timer: args.timer,
        brightness: args.set_brightness,
        light_mode: parse_light_mode(args),
    }
}

/// The light colour a send command asks for.
pub fn parse_light_mode(args: &SendArgs) -> (r: Option<LightMode>)
    ensures
        r == light_mode_of_arg(args.color),
{
    match args.color {
        Some(LightModeState::Warm) => Some(LightMode::Warm),
        Some(LightModeState::Cool) => Some(LightMode::Cool),
        Some(LightModeState::Daylight) => Some(LightMode::Daylight),
        None => None,
    }
}

/// The target of a send command: the alias when given, else the group.
pub fn send_target(args: &SendArgs) -> (r: Target<'_>)
    requires
        args.alias is Some || args.group is Some,
    ensures
        args.alias matches Some(a) ==> (r matches Target::Alias(x) && x@ == a@),
        args.alias is None ==> (r matches Target::Group(x) && x@ == args.group->0@),
{
    match &args.alias {
        Some(a) => Target::Alias(a.as_str()),
        None => match &args.group {
            Some(g) => Target::Group(g.as_str()),
            None => {
                proof {
                    assert(false);
                }
                Target::Group("")
            },
        },
    }
}

/// The device an `alias show` names: by device ID when given, else by alias.
pub open spec fn show_selector_post(args: AliasShowArgs, selector: DeviceSelector) -> bool {
    match args.device_id {
        Some(d) => selector matches DeviceSelector::DeviceId(x) && x@ == d@,
        None => selector matches DeviceSelector::Alias(x) && x@ == args.alias->0@,
    }
}

/// The device a group membership command names: by device ID when given,
/// else by alias.
pub fn resolve_membership_selector(args: &GroupMembershipArgs) -> (r: DeviceSelector<'_>)
    requires
        args.device_id is Some || args.alias is Some,
    ensures
        ops::membership_selector(args.device_id, args.alias, r),
{
    match &args.device_id {
        Some(d) => DeviceSelector::DeviceId(d.as_str()),
        None => match &args.alias {
            Some(a) => DeviceSelector::Alias(a.as_str()),
            None => {
                proof {
                    assert(false);
                }
                DeviceSelector::Alias("")
            },
        },
    }
}

/// The device an `alias show` names.
pub fn resolve_alias_show(config: &Config, args: &AliasShowArgs) -> (r: Result<Device, ConfigError>)
    requires
        config.wf(),
        args.device_id is Some || args.alias is Some,
    ensures
        forall|s: DeviceSelector| show_selector_post(*args, s) ==> match selected_key(config.devices@, s) {
            Some(k) => r matches Ok(d) && device_lookup(config.devices@, k) == Some(d@),
            None => r matches Err(x) && selector_error(s, x),
        },
{
    let selector = match &args.device_id {
        Some(d) => DeviceSelector::DeviceId(d.as_str()),
        None => match &args.alias {
            Some(a) => DeviceSelector::Alias(a.as_str()),
            None => {
                proof {
                    assert(false);
                }
                DeviceSelector::Alias("")
            },
        },
    };
    let r = ops::resolve_device(config, selector);
    proof {
        assert forall|s: DeviceSelector| show_selector_post(*args, s) implies match selected_key(config.devices@, s) {
            Some(k) => r matches Ok(d) && device_lookup(config.devices@, k) == Some(d@),
            None => r matches Err(x) && selector_error(s, x),
        } by {
            assert(selected_key(config.devices@, s) == selected_key(config.devices@, selector));
            assert(forall|x: ConfigError| selector_error(s, x) == selector_error(selector, x));
        }
    }
    r
}

/// The devices' views.
pub open spec fn device_views(v: Seq<Device>) -> Seq<DeviceView> {
    v.map_values(|d: Device| d@)
}

/// The devices of a table, in its order.
pub open spec fn table_devices(e: Seq<(Seq<char>, DeviceView)>) -> Seq<DeviceView> {
    e.map_values(|p: (Seq<char>, DeviceView)| p.1)
}

/// In order of device ID.
pub open spec fn sorted_by_id(s: Seq<DeviceView>) -> bool {
    forall|i: int, j: int| 0 <= i < j < s.len() ==> !text_lt(#[trigger] s[j].id, #[trigger] s[i].id)
}

/// Inserting an element adds it to the multiset.
proof fn lemma_insert_multiset<A>(s: Seq<A>, p: int, x: A)
    requires
        0 <= p <= s.len(),
    ensures
        s.insert(p, x).to_multiset() == s.to_multiset().insert(x),
{
    let t = s.insert(p, x);
    s.insert_ensures(p, x);
    assert(t.remove(p) =~= s);
    t.to_multiset_ensures();
    assert(t.contains(x));
    assert(t.to_multiset().count(x) > 0);
    assert(t.to_multiset() =~= s.to_multiset().insert(x));
}

/// The devices, in order of device ID; devices with the same ID keep their order.
fn devices_by_id(devices: &DeviceMap) -> (r: Vec<Device>)
    ensures
        device_views(r@).to_multiset() == table_devices(devices@).to_multiset(),
        sorted_by_id(device_views(r@)),
{
    let mut r: Vec<Device> = Vec::new();
    let n = devices.len();
    let ghost all = table_devices(devices@);
    assert(device_views(r@) =~= all.take(0));
    for i in 0..n
        invariant
            n == devices@.len(),
            all == table_devices(devices@),
            device_views(r@).to_multiset() == all.take(i as int).to_multiset(),
            sorted_by_id(device_views(r@)),
    {
        let d = devices.device_at(i);
        let m = r.len();
        let mut p: usize = 0;
        while p < m && !str_lt(d.id.as_str(), r[p].id.as_str())
            invariant
                p <= m,
                m == r@.len(),
                forall|j: int| 0 <= j < p ==> !text_lt(d@.id, #[trigger] device_views(r@)[j].id),
            decreases m - p,
        {
            p = p + 1;
        }
        let ghost s = device_views(r@);
        let ghost x = d@;
        r.insert(p, d.duplicate());
        proof {
            assert(device_views(r@) =~= s.insert(p as int, x));
            lemma_insert_multiset(s, p as int, x);
            assert(all.take(i + 1) =~= all.take(i as int).push(x));
            all.take(i as int).to_multiset_ensures();
            s.insert_ensures(p as int, x);
            let t = s.insert(p as int, x);
            assert forall|a: int, b: int| 0 <= a < b < t.len() implies !text_lt(#[trigger] t[b].id, #[trigger] t[a].id) by {
                if b < p {
                    assert(t[a] == s[a] && t[b] == s[b]);
                } else if b == p {
                    assert(t[a] == s[a]);
                } else if a < p {
                    assert(t[a] == s[a] && t[b] == s[b - 1]);
                    if text_lt(s[b - 1].id, x.id) {
                        crate::text::lemma_text_lt_transitive(s[b - 1].id, x.id, s[p as int].id);
                        if b - 1 > p {
                            assert(!text_lt(s[b - 1].id, s[p as int].id));
                        } else {
                            crate::text::lemma_text_lt_irreflexive(s[p as int].id);
                        }
                    }
                    if text_lt(s[b - 1].id, s[a].id) {
                        assert(!text_lt(x.id, s[a].id));
                        crate::text::lemma_text_lt_total(x.id, s[a].id);
                        crate::text::lemma_text_lt_total(s[b - 1].id, x.id);
                        if x.id == s[a].id {
                        } else {
                            crate::text::lemma_text_lt_transitive(s[b - 1].id, s[a].id, x.id);
                        }
                    }
                } else if a == p {
                    assert(t[b] == s[b - 1]);
                    if text_lt(s[b - 1].id, x.id) {
                        crate::text::lemma_text_lt_transitive(s[b - 1].id, x.id, s[p as int].id);
                        if b - 1 > p {
                            assert(!text_lt(s[b - 1].id, s[p as int].id));
                        } else {
                            crate::text::lemma_text_lt_irreflexive(s[p as int].id);
                        }
                    }
                } else {
                    assert(t[a] == s[a - 1] && t[b] == s[b - 1]);
                }
            }
        }
    }
    assert(all.take(n as int) =~= all);
    r
}

/// A group and how many members it has.
#[derive(Debug)]
pub struct GroupSummary {
    pub name: String,
    pub members: usize,
}

/// What an `alias` subcommand did, for the caller to report.
#[derive(Debug)]
pub enum AliasOutcome {
    Assigned { changed: bool, alias: String, device_id: String },
    Renamed { changed: bool, current: String, replacement: String },
    Removed { changed: bool, alias: String },
    Listed(Vec<Device>),
    Shown(Device),
}

/// What a `group` subcommand did, for the caller to report.
#[derive(Debug)]
pub enum GroupOutcome {
    Created { changed: bool, name: String },
    Renamed { changed: bool, current: String, replacement: String },
    Deleted { changed: bool, name: String },
    Added { changed: bool, name: String },
    Removed { changed: bool, name: String },
    Listed(Vec<GroupSummary>),
    Shown { name: String, members: Vec<String> },
}

impl AliasOutcome {
    /// Whether the configuration changed and is to be saved.
    pub open spec fn changed_spec(&self) -> bool {
        match self {
            AliasOutcome::Assigned { changed, .. } => *changed,
            AliasOutcome::Renamed { changed, .. } => *changed,
            AliasOutcome::Removed { changed, .. } => *changed,
            _ => false,
        }
    }

    /// Whether the configuration changed and is to be saved.
    pub fn changed(&self) -> (r: bool)
        ensures
            r == self.changed_spec(),
    {
        match self {
            AliasOutcome::Assigned { changed, .. } => *changed,
            AliasOutcome::Renamed { changed, .. } => *changed,
            AliasOutcome::Removed { changed, .. } => *changed,
            _ => false,
        }
    }
}

impl GroupOutcome {
    /// Whether the configuration changed and is to be saved.
    pub open spec fn changed_spec(&self) -> bool {
        match self {
            GroupOutcome::Created { changed, .. } => *changed,
            GroupOutcome::Renamed { changed, .. } => *changed,
            GroupOutcome::Deleted { changed, .. } => *changed,
            GroupOutcome::Added { changed, .. } => *changed,
            GroupOutcome::Removed { changed, .. } => *changed,
            _ => false,
        }
    }

    /// Whether the configuration changed and is to be saved.
    pub fn changed(&self) -> (r: bool)
        ensures
            r == self.changed_spec(),
    {
        match self {
            GroupOutcome::Created { changed, .. } => *changed,
            GroupOutcome::Renamed { changed, .. } => *changed,
            GroupOutcome::Deleted { changed, .. } => *changed,
            GroupOutcome::Added { changed, .. } => *changed,
            GroupOutcome::Removed { changed, .. } => *changed,
            _ => false,
        }
    }
}

/// The `s` that `group list` puts after a member count other than one.
pub fn plural_suffix(n: usize) -> (r: &'static str)
    ensures
        n == 1 ==> r@ == ""@,
        n != 1 ==> r@ == "s"@,
{
    if n == 1 {
        ""
    } else {
        "s"
    }
}

/// The result of an edit, with the outcome's details dropped.
pub open spec fn alias_result(r: Result<AliasOutcome, ConfigError>) -> Result<bool, ConfigError> {
    match r {
        Ok(o) => Ok(o.changed_spec()),
        Err(e) => Err(e),
    }
}

/// The result of an edit, with the outcome's details dropped.
pub open spec fn group_result(r: Result<GroupOutcome, ConfigError>) -> Result<bool, ConfigError> {
    match r {
        Ok(o) => Ok(o.changed_spec()),
        Err(e) => Err(e),
    }
}

/// Configurations `a` and `b` hold the same.
pub open spec fn same_config(a: Config, b: Config) -> bool {
    &&& a.network == b.network
    &&& a.devices@ == b.devices@
    &&& group_entries(a.groups) == group_entries(b.groups)
}

/// Runs an `alias` subcommand.
pub fn handle_alias(command: AliasCommand, config: &mut Config) -> (r: Result<AliasOutcome, ConfigError>)
    requires
        old(config).wf(),
        command matches AliasCommand::Show(a) ==> a.device_id is Some || a.alias is Some,
    ensures
        final(config).wf(),
        final(config).network == old(config).network,
        match command {
            AliasCommand::Assign { device_id, alias } => {
                &&& ops::set_alias_post(
                    old(config).devices@,
                    group_entries(old(config).groups),
                    device_id@,
                    alias@,
                    alias_result(r),
                    final(config).devices@,
                    group_entries(final(config).groups),
                )
                &&& r matches Ok(o) ==> (o matches AliasOutcome::Assigned { alias: a, device_id: d, .. } && a@ == alias@
                    && d@ == unicode_uppercase(device_id@))
            },
            AliasCommand::Rename { current, replacement } => {
                &&& ops::rename_alias_post(
                    old(config).devices@,
                    group_entries(old(config).groups),
                    current@,
                    replacement@,
                    alias_result(r),
                    final(config).devices@,
                    group_entries(final(config).groups),
                )
                &&& r matches Ok(o) ==> (o matches AliasOutcome::Renamed { current: c, replacement: n, .. }
                    && c@ == current@ && n@ == replacement@)
            },
            AliasCommand::Remove { alias } => {
                &&& ops::remove_alias_post(
                    old(config).devices@,
                    group_entries(old(config).groups),
                    alias@,
                    alias_result(r),
                    final(config).devices@,
                    group_entries(final(config).groups),
                )
                &&& r matches Ok(o) ==> (o matches AliasOutcome::Removed { alias: a, .. } && a@ == alias@)
            },
            AliasCommand::List => {
                &&& same_config(*final(config), *old(config))
                &&& r matches Ok(AliasOutcome::Listed(v))
                &&& device_views(v@).to_multiset() == table_devices(old(config).devices@).to_multiset()
                &&& sorted_by_id(device_views(v@))
            },
            AliasCommand::Show(args) => {
                &&& same_config(*final(config), *old(config))
                &&& forall|s: DeviceSelector| show_selector_post(args, s) ==> match selected_key(old(config).devices@, s) {
                    Some(k) => r matches Ok(AliasOutcome::Shown(d)) && device_lookup(old(config).devices@, k) == Some(d@),
                    None => r matches Err(x) && selector_error(s, x),
                }
            },
        },
{
    match command {
        AliasCommand::Assign { device_id, alias } => {
            let changed = match set_alias(config, device_id.as_str(), alias.as_str()) {
                Ok(c) => c,
                Err(e) => {
                    return Err(e);
                },
            };
            let device_id = to_uppercase(device_id.as_str());
            Ok(AliasOutcome::Assigned { changed, alias, device_id })
        },
        AliasCommand::Rename { current, replacement } => {
            let changed = match rename_alias(config, current.as_str(), replacement.as_str()) {
                Ok(c) => c,
                Err(e) => {
                    return Err(e);
                },
            };
            Ok(AliasOutcome::Renamed { changed, current, replacement })
        },
        AliasCommand::Remove { alias } => {
            let changed = match remove_alias(config, alias.as_str()) {
                Ok(c) => c,
                Err(e) => {
                    return Err(e);
                },
            };
            Ok(AliasOutcome::Removed { changed, alias })
        },
        AliasCommand::List => Ok(AliasOutcome::Listed(devices_by_id(&config.devices))),
        AliasCommand::Show(selector) => {
            match resolve_alias_show(config, &selector) {
                Ok(d) => Ok(AliasOutcome::Shown(d)),
                Err(e) => Err(e),
            }
        },
    }
}

/// The members of a group, as text.
fn member_texts(members: &indexmap::IndexSet<String>) -> (r: Vec<String>)
    ensures
        texts(r@) == member_list(*members),
{
    let n = members_len(members);
    let mut r: Vec<String> = Vec::new();
    for i in 0..n
        invariant
            n == member_list(*members).len(),
            r@.len() == i,
            forall|j: int| 0 <= j < i ==> #[trigger] r@[j]@ == member_list(*members)[j],
    {
        r.push(members_at(members, i).clone());
    }
    assert(texts(r@) =~= member_list(*members));
    r
}

/// Each group's name and member count, in table order.
pub open spec fn summaries_match(v: Seq<GroupSummary>, g: Seq<(Seq<char>, Seq<Seq<char>>)>) -> bool {
    &&& v.len() == g.len()
    &&& forall|i: int| 0 <= i < g.len() ==> (#[trigger] v[i]).name@ == g[i].0 && v[i].members == g[i].1.len()
}

/// Every group's name and member count.
fn group_summaries(config: &Config) -> (r: Vec<GroupSummary>)
    ensures
        summaries_match(r@, group_entries(config.groups)),
{
    let n = groups_len(&config.groups);
    let mut r: Vec<GroupSummary> = Vec::new();
    for i in 0..n
        invariant
            n == group_entries(config.groups).len(),
            r@.len() == i,
            forall|j: int| 0 <= j < i ==> (#[trigger] r@[j]).name@ == group_entries(config.groups)[j].0
                && r@[j].members == group_entries(config.groups)[j].1.len(),
    {
        match groups_entry_at(&config.groups, i) {
            Some((name, members)) => {
                r.push(GroupSummary { name: name.clone(), members: members_len(members) });
            },
            None => {
                proof {
                    assert(false);
                }
            },
        }
    }
    r
}

/// Runs a `group` subcommand.
pub fn handle_group(command: GroupCommand, config: &mut Config) -> (r: Result<GroupOutcome, ConfigError>)
    requires
        old(config).wf(),
        command matches GroupCommand::Add(a) ==> a.device_id is Some || a.alias is Some,
        command matches GroupCommand::Remove(a) ==> a.device_id is Some || a.alias is Some,
    ensures
        final(config).wf(),
        final(config).network == old(config).network,
        match command {
            GroupCommand::Create { name } => {
                &&& ops::create_group_post(
                    old(config).devices@,
                    group_entries(old(config).groups),
                    name@,
                    group_result(r),
                    final(config).devices@,
                    group_entries(final(config).groups),
                )
                &&& r matches Ok(o) ==> (o matches GroupOutcome::Created { name: x, .. } && x@ == name@)
            },
            GroupCommand::Rename { current, replacement } => {
                &&& ops::rename_group_post(
                    old(config).devices@,
                    group_entries(old(config).groups),
                    current@,
                    replacement@,
                    group_result(r),
                    final(config).devices@,
                    group_entries(final(config).groups),
                )
                &&& r matches Ok(o) ==> (o matches GroupOutcome::Renamed { current: c, replacement: n, .. }
                    && c@ == current@ && n@ == replacement@)
            },
            GroupCommand::Delete { name } => {
                &&& ops::delete_group_post(
                    old(config).devices@,
                    group_entries(old(config).groups),
                    name@,
                    group_result(r),
                    final(config).devices@,
                    group_entries(final(config).groups),
                )
                &&& r matches Ok(o) ==> (o matches GroupOutcome::Deleted { name: x, .. } && x@ == name@)
            },
            GroupCommand::Add(args) => {
                &&& forall|s: DeviceSelector| #[trigger] ops::membership_selector(args.device_id, args.alias, s) ==> ops::add_member_post(
                    old(config).devices@,
                    group_entries(old(config).groups),
                    args.name@,
                    s,
                    group_result(r),
                    final(config).devices@,
                    group_entries(final(config).groups),
                )
                &&& r matches Ok(o) ==> (o matches GroupOutcome::Added { name: x, .. } && x@ == args.name@)
            },
            GroupCommand::Remove(args) => {
                &&& forall|s: DeviceSelector| #[trigger] ops::membership_selector(args.device_id, args.alias, s) ==> ops::remove_member_post(
                    old(config).devices@,
                    group_entries(old(config).groups),
                    args.name@,
                    s,
                    group_result(r),
                    final(config).devices@,
                    group_entries(final(config).groups),
                )
                &&& r matches Ok(o) ==> (o matches GroupOutcome::Removed { name: x, .. } && x@ == args.name@)
            },
            GroupCommand::List => {
                &&& same_config(*final(config), *old(config))
                &&& r matches Ok(GroupOutcome::Listed(v))
                &&& summaries_match(v@, group_entries(old(config).groups))
            },
            GroupCommand::Show { name } => {
                &&& same_config(*final(config), *old(config))
                &&& match crate::config::groups::group_pos(group_entries(old(config).groups), name@) {
                    Some(i) => r matches Ok(GroupOutcome::Shown { name: x, members }) && x@ == name@
                        && texts(members@) == group_entries(old(config).groups)[i].1,
                    None => r matches Err(ConfigError::GroupNotFound(x)) && x@ == name@,
                }
            },
        },
{
    match command {
        GroupCommand::Create { name } => {
            let changed = match create_group(config, name.as_str()) {
                Ok(c) => c,
                Err(e) => {
                    return Err(e);
                },
            };
            Ok(GroupOutcome::Created { changed, name })
        },
        GroupCommand::Rename { current, replacement } => {
            let changed = match rename_group(config, current.as_str(), replacement.as_str()) {
                Ok(c) => c,
                Err(e) => {
                    return Err(e);
                },
            };
            Ok(GroupOutcome::Renamed { changed, current, replacement })
        },
        GroupCommand::Delete { name } => {
            let changed = match delete_group(config, name.as_str()) {
                Ok(c) => c,
                Err(e) => {
                    return Err(e);
                },
            };
            Ok(GroupOutcome::Deleted { changed, name })
        },
        GroupCommand::Add(args) => {
            let selector = resolve_membership_selector(&args);
            let ghost e = config.devices@;
            let ghost g = group_entries(config.groups);
            let res = ops::add_group_member(config, args.name.as_str(), selector);
            proof {
                assert forall|s: DeviceSelector| #[trigger] ops::membership_selector(args.device_id, args.alias, s) implies ops::add_member_post(
                    e,
                    g,
                    args.name@,
                    s,
                    res,
                    config.devices@,
                    group_entries(config.groups),
                ) by {
                    assert(selected_key(e, s) == selected_key(e, selector));
                    assert(forall|x: ConfigError| selector_error(s, x) == selector_error(selector, x));
                }
            }
            match res {
                Ok(changed) => Ok(GroupOutcome::Added { changed, name: args.name }),
                Err(e) => Err(e),
            }
        },
        GroupCommand::Remove(args) => {
            let selector = resolve_membership_selector(&args);
            let ghost e = config.devices@;
            let ghost g = group_entries(config.groups);
            let res = remove_group_member(config, args.name.as_str(), selector);
            proof {
                assert forall|s: DeviceSelector| #[trigger] ops::membership_selector(args.device_id, args.alias, s) implies ops::remove_member_post(
                    e,
                    g,
                    args.name@,
                    s,
                    res,
                    config.devices@,
                    group_entries(config.groups),
                ) by {
                    assert(selected_key(e, s) == selected_key(e, selector));
                    assert(forall|x: ConfigError| selector_error(s, x) == selector_error(selector, x));
                }
            }
            match res {
                Ok(changed) => Ok(GroupOutcome::Removed { changed, name: args.name }),
                Err(e) => Err(e),
            }
        },
        GroupCommand::List => Ok(GroupOutcome::Listed(group_summaries(config))),
        GroupCommand::Show { name } => {
            let members = match groups_get(&config.groups, name.as_str()) {
                Some(m) => member_texts(m),
                None => {
                    return Err(ConfigError::GroupNotFound(name));
                },
            };
            Ok(GroupOutcome::Shown { name, members })
        },
    }
}

} // verus!
