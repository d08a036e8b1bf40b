//! Properties that hold across operations.
use crate::config::groups::{group_names, group_pos, members_with};
use crate::config::model::{alias_owner, alias_pos, device_aliases, device_keys, device_pos, DeviceView};
use crate::config::ops::{
    add_member_post, create_group_post, delete_group_post, devices_leaving, normalized_id,
    remove_alias_post, remove_member_post, rename_alias_post, selected_key, set_alias_post, with_alias, with_groups, without, AliasChange,
    ConfigError, DeviceSelector,
};
use crate::device::command::{option_fields, range_error, CommandOptions};
use crate::device::discover::after_beacon;
use crate::device::send_workflow::first_field;
use crate::device::state_match::satisfies;
use crate::protocol::Payload;
use crate::device::DeviceState;
use crate::protocol::command::{light_mode_text, CommandError, JsonScalar};
use crate::device::send_workflow::{wait_post, SendWorkflowResult, WaitEvent, WaitOutcome, WaitStep};
use crate::device::state_match::RequestedState;
use crate::protocol::becon::is_beacon_text;
use crate::protocol::status::{hex_decodable, hex_decoded, hex_encoded, lemma_hex_round_trip, state_of};
use crate::text::{ascii_uppercase, is_hex_digit, parse_unsigned_spec, trim_spec, unicode_uppercase};
use vstd::prelude::*;

verus! {

/// Taking out an entry that is not there changes nothing.
pub proof fn lemma_without_absent(g: Seq<Seq<char>>, n: Seq<char>)
    requires
        !g.contains(n),
    ensures
        without(g, n) == g,
    decreases g.len(),
{
    reveal(Seq::filter);
    if g.len() > 0 {
        let init = g.drop_last();
        assert(!init.contains(n)) by {
            if init.contains(n) {
                let k = choose|k: int| 0 <= k < init.len() && init[k] == n;
                assert(g[k] == n);
            }
        }
        lemma_without_absent(init, n);
        assert(g.last() != n);
        assert(init.push(g.last()) =~= g);
    }
}

/// Taking out an entry that was just appended takes out the appended copy too.
pub proof fn lemma_without_push(g: Seq<Seq<char>>, n: Seq<char>)
    ensures
        without(g.push(n), n) == without(g, n),
{
    reveal(Seq::filter);
    assert(g.push(n).drop_last() =~= g);
}

/// Whether the devices `e2` have the keys and aliases of `e`, in the same places.
pub open spec fn same_keys_and_aliases(e: Seq<(Seq<char>, DeviceView)>, e2: Seq<(Seq<char>, DeviceView)>) -> bool {
    &&& e2.len() == e.len()
    &&& forall|i: int| #![trigger e2[i]] 0 <= i < e.len() ==> e2[i].0 == e[i].0 && e2[i].1.alias == e[i].1.alias
}

/// Devices with the same keys and aliases resolve selectors alike.
pub proof fn lemma_same_selection(e: Seq<(Seq<char>, DeviceView)>, e2: Seq<(Seq<char>, DeviceView)>, s: DeviceSelector)
    requires
        same_keys_and_aliases(e, e2),
    ensures
        selected_key(e2, s) == selected_key(e, s),
        forall|k: Seq<char>| #[trigger] device_pos(e2, k) == device_pos(e, k),
        forall|a: Seq<char>| #[trigger] alias_pos(e2, a) == alias_pos(e, a),
{
    assert(device_keys(e2) =~= device_keys(e));
    assert forall|i: int| 0 <= i < e.len() implies device_aliases(e2)[i] == device_aliases(e)[i] by {
        assert(e2[i].1.alias == e[i].1.alias);
    }
    assert(device_aliases(e2) =~= device_aliases(e));
    assert forall|a: Seq<char>| #[trigger] alias_owner(e2, a) == alias_owner(e, a) by {
        device_aliases(e).index_of_first_ensures(Some(a));
        if let Some(i) = alias_pos(e, a) {
            assert(e2[i].0 == e[i].0);
        }
    }
}

/// Creating a group and deleting it again leaves the configuration as it
/// was, when no device lists a group of that name.
pub proof fn law_create_then_delete_group(
    e: Seq<(Seq<char>, DeviceView)>,
    g: Seq<(Seq<char>, Seq<Seq<char>>)>,
    name: Seq<char>,
    r1: Result<bool, ConfigError>,
    e1: Seq<(Seq<char>, DeviceView)>,
    g1: Seq<(Seq<char>, Seq<Seq<char>>)>,
    r2: Result<bool, ConfigError>,
    e2: Seq<(Seq<char>, DeviceView)>,
    g2: Seq<(Seq<char>, Seq<Seq<char>>)>,
)
    requires
        create_group_post(e, g, name, r1, e1, g1),
        r1 is Ok,
        delete_group_post(e1, g1, name, r2, e2, g2),
        forall|i: int| 0 <= i < e.len() ==> !(#[trigger] e[i].1.groups).contains(trim_spec(name)),
    ensures
        r2 == Ok::<bool, ConfigError>(true),
        e2 == e,
        g2 == g,
{
    let n = trim_spec(name);
    group_names(g).index_of_first_ensures(n);
    assert(group_names(g1) =~= group_names(g).push(n));
    crate::config::model::lemma_first_at(group_names(g1), n, g.len() as int);
    assert(g1.remove(g.len() as int) =~= g);
    assert forall|i: int| 0 <= i < e.len() implies #[trigger] devices_leaving(e, n)[i] == e[i] by {
        lemma_without_absent(e[i].1.groups, n);
        assert(with_groups(e[i].1, e[i].1.groups) == e[i].1);
    }
    assert(devices_leaving(e, n) =~= e);
}

/// Adding a device to a group and removing it again leaves the configuration
/// as it was, when the device was not in the group before.
pub proof fn law_add_then_remove_member(
    e: Seq<(Seq<char>, DeviceView)>,
    g: Seq<(Seq<char>, Seq<Seq<char>>)>,
    name: Seq<char>,
    s: DeviceSelector,
    r1: Result<bool, ConfigError>,
    e1: Seq<(Seq<char>, DeviceView)>,
    g1: Seq<(Seq<char>, Seq<Seq<char>>)>,
    r2: Result<bool, ConfigError>,
    e2: Seq<(Seq<char>, DeviceView)>,
    g2: Seq<(Seq<char>, Seq<Seq<char>>)>,
)
    requires
        device_keys(e).no_duplicates(),
        add_member_post(e, g, name, s, r1, e1, g1),
        r1 is Ok,
        remove_member_post(e1, g1, name, s, r2, e2, g2),
        !g[group_pos(g, trim_spec(name))->0].1.contains(selected_key(e, s)->0),
        !e[device_pos(e, selected_key(e, s)->0)->0].1.groups.contains(trim_spec(name)),
    ensures
        r2 == Ok::<bool, ConfigError>(true),
        e2 == e,
        g2 == g,
{
    let n = trim_spec(name);
    let k = selected_key(e, s)->0;
    let gi = group_pos(g, n)->0;
    let di = device_pos(e, k)->0;
    let d = e[di].1;
    crate::config::ops::lemma_selected_key_stored(e, s);
    device_keys(e).index_of_first_ensures(k);
    group_names(g).index_of_first_ensures(n);
    assert(same_keys_and_aliases(e, e1));
    lemma_same_selection(e, e1, s);
    assert(group_names(g1) =~= group_names(g));
    let m = g[gi].1;
    m.push(k).index_of_first_ensures(k);
    crate::config::model::lemma_first_at(m.push(k), k, m.len() as int);
    assert(m.push(k).remove(m.len() as int) =~= m);
    lemma_without_push(d.groups, n);
    lemma_without_absent(d.groups, n);
    assert(with_groups(with_groups(d, d.groups.push(n)), d.groups) == d);
    assert(e2 =~= e);
    assert(g2 =~= g);
}

/// Adding a device to a group a second time changes nothing and says so.
pub proof fn law_add_member_twice(
    e: Seq<(Seq<char>, DeviceView)>,
    g: Seq<(Seq<char>, Seq<Seq<char>>)>,
    name: Seq<char>,
    s: DeviceSelector,
    r1: Result<bool, ConfigError>,
    e1: Seq<(Seq<char>, DeviceView)>,
    g1: Seq<(Seq<char>, Seq<Seq<char>>)>,
    r2: Result<bool, ConfigError>,
    e2: Seq<(Seq<char>, DeviceView)>,
    g2: Seq<(Seq<char>, Seq<Seq<char>>)>,
)
    requires
        device_keys(e).no_duplicates(),
        add_member_post(e, g, name, s, r1, e1, g1),
        r1 is Ok,
        add_member_post(e1, g1, name, s, r2, e2, g2),
    ensures
        r2 == Ok::<bool, ConfigError>(false),
        e2 == e1,
        g2 == g1,
{
    let n = trim_spec(name);
    let k = selected_key(e, s)->0;
    let gi = group_pos(g, n)->0;
    let di = device_pos(e, k)->0;
    crate::config::ops::lemma_selected_key_stored(e, s);
    device_keys(e).index_of_first_ensures(k);
    group_names(g).index_of_first_ensures(n);
    assert(same_keys_and_aliases(e, e1));
    lemma_same_selection(e, e1, s);
    assert(group_names(g1) =~= group_names(g));
    let m1 = members_with(g[gi].1, k);
    assert(m1.contains(k)) by {
        if !g[gi].1.contains(k) {
            assert(m1[g[gi].1.len() as int] == k);
        }
    }
    let d1 = e1[di].1;
    assert(d1.groups.contains(n)) by {
        if !e[di].1.groups.contains(n) {
            assert(d1.groups[e[di].1.groups.len() as int] == n);
        }
    }
    assert(members_with(m1, k) == m1);
    assert(with_groups(d1, d1.groups) == d1);
    assert(g2 =~= g1);
    assert(e2 =~= e1);
}

/// After a successful `set_alias`, the alias leads back to the device: the
/// first device with that alias is the one it was set on.
pub proof fn law_set_alias_then_find(
    e: Seq<(Seq<char>, DeviceView)>,
    g: Seq<(Seq<char>, Seq<Seq<char>>)>,
    id: Seq<char>,
    alias: Seq<char>,
    r: Result<bool, ConfigError>,
    e2: Seq<(Seq<char>, DeviceView)>,
    g2: Seq<(Seq<char>, Seq<Seq<char>>)>,
)
    requires
        device_keys(e).no_duplicates(),
        set_alias_post(e, g, id, alias, r, e2, g2),
        r is Ok,
    ensures
        alias_owner(e2, trim_spec(alias)) == Some(normalized_id(id)),
{
    let a = trim_spec(alias);
    let k = normalized_id(id);
    device_keys(e).index_of_first_ensures(k);
    device_aliases(e).index_of_first_ensures(Some(a));
    match crate::config::ops::alias_change(e, id, alias) {
        AliasChange::Same => {
            let i = device_pos(e, k)->0;
            assert(device_aliases(e)[i] == Some(a));
            let j = alias_pos(e, a)->0;
            assert(e[j].0 == k);
        },
        AliasChange::Assign(i) => {
            assert(e2 =~= e.update(i, (e[i].0, with_alias(e[i].1, a))));
            assert(device_aliases(e2)[i] == Some(a));
            assert forall|j: int| 0 <= j < i implies device_aliases(e2)[j] != Some(a) by {
                if device_aliases(e2)[j] == Some(a) {
                    assert(device_aliases(e)[j] == Some(a));
                    let o = alias_pos(e, a)->0;
                    assert(o <= j);
                    assert(e[o].0 == k);
                    assert(device_keys(e)[o] == device_keys(e)[i]);
                }
            }
            crate::config::model::lemma_first_at(device_aliases(e2), Some(a), i);
        },
        _ => {},
    }
}

/// After a successful `rename_alias`, the new alias leads to the device that
/// the old one led to (as the configuration keys that device).
pub proof fn law_rename_alias_then_find(
    e: Seq<(Seq<char>, DeviceView)>,
    g: Seq<(Seq<char>, Seq<Seq<char>>)>,
    current: Seq<char>,
    replacement: Seq<char>,
    r: Result<bool, ConfigError>,
    e2: Seq<(Seq<char>, DeviceView)>,
    g2: Seq<(Seq<char>, Seq<Seq<char>>)>,
)
    requires
        device_keys(e).no_duplicates(),
        rename_alias_post(e, g, current, replacement, r, e2, g2),
        r is Ok,
    ensures
        alias_owner(e2, trim_spec(replacement)) == Some(normalized_id(alias_owner(e, trim_spec(current))->0)),
{
    crate::text::lemma_trim_idempotent(replacement);
    law_set_alias_then_find(e, g, alias_owner(e, trim_spec(current))->0, trim_spec(replacement), r, e2, g2);
}

/// Setting the same alias on the same device a second time changes nothing
/// and says so.
pub proof fn law_set_alias_twice(
    e: Seq<(Seq<char>, DeviceView)>,
    g: Seq<(Seq<char>, Seq<Seq<char>>)>,
    id: Seq<char>,
    alias: Seq<char>,
    r1: Result<bool, ConfigError>,
    e1: Seq<(Seq<char>, DeviceView)>,
    g1: Seq<(Seq<char>, Seq<Seq<char>>)>,
    r2: Result<bool, ConfigError>,
    e2: Seq<(Seq<char>, DeviceView)>,
    g2: Seq<(Seq<char>, Seq<Seq<char>>)>,
)
    requires
        device_keys(e).no_duplicates(),
        set_alias_post(e, g, id, alias, r1, e1, g1),
        r1 is Ok,
        set_alias_post(e1, g1, id, alias, r2, e2, g2),
    ensures
        r2 == Ok::<bool, ConfigError>(false),
        e2 == e1,
        g2 == g1,
{
    let a = trim_spec(alias);
    let k = normalized_id(id);
    law_set_alias_then_find(e, g, id, alias, r1, e1, g1);
    device_keys(e).index_of_first_ensures(k);
    let i = device_pos(e, k)->0;
    assert(device_keys(e1) =~= device_keys(e));
    assert(device_pos(e1, k) == Some(i));
    assert(e1[i].1.alias == Some(a));
}

/// A beacon keeps every known device where it was, with its key, ID, alias
/// and groups; at most the address of the device it names changes, and a new
/// device comes last.
pub proof fn law_beacon_keeps_devices(e: Seq<(Seq<char>, DeviceView)>, id: Seq<char>, ip: Seq<char>)
    ensures
        after_beacon(e, id, ip).0.len() >= e.len(),
        forall|i: int| #![trigger after_beacon(e, id, ip).0[i]] 0 <= i < e.len() ==> {
            let d = after_beacon(e, id, ip).0[i];
            &&& d.0 == e[i].0
            &&& d.1.id == e[i].1.id
            &&& d.1.alias == e[i].1.alias
            &&& d.1.groups == e[i].1.groups
            &&& (d.1.ip != e[i].1.ip ==> e[i].0 == id && d.1.ip == ip)
        },
{
    device_keys(e).index_of_first_ensures(id);
}

/// Hearing the same beacon twice: the second changes nothing.
pub proof fn law_beacon_twice(e: Seq<(Seq<char>, DeviceView)>, id: Seq<char>, ip: Seq<char>)
    ensures
        after_beacon(after_beacon(e, id, ip).0, id, ip) == (after_beacon(e, id, ip).0, false),
{
    let e1 = after_beacon(e, id, ip).0;
    device_keys(e).index_of_first_ensures(id);
    match device_pos(e, id) {
        Some(i) => {
            assert(device_keys(e1) =~= device_keys(e));
        },
        None => {
            assert(device_keys(e1) =~= device_keys(e).push(id));
            crate::config::model::lemma_first_at(device_keys(e1), id, e.len() as int);
        },
    }
}

/// A beacon's device ID is twelve upper-case hexadecimal digits.
pub proof fn law_beacon_id_shape(text: Seq<char>)
    requires
        is_beacon_text(text),
    ensures
        ascii_uppercase(text.take(12)).len() == 12,
        forall|i: int| 0 <= i < 12 ==> {
            let c = #[trigger] ascii_uppercase(text.take(12))[i];
            is_hex_digit(c) && !('a' <= c && c <= 'z')
        },
{
    assert forall|i: int| 0 <= i < 12 implies {
        let c = #[trigger] ascii_uppercase(text.take(12))[i];
        is_hex_digit(c) && !('a' <= c && c <= 'z')
    } by {
        assert(is_hex_digit(text[i]));
        assert(text.take(12)[i] == text[i]);
    }
}

/// Waiting never adds a device: every event leaves the pending devices a
/// subset of what they were.
pub proof fn law_wait_never_adds(
    pending: Set<Seq<char>>,
    expected: RequestedState,
    event: WaitEvent,
    r: WaitOutcome,
    pending2: Set<Seq<char>>,
)
    requires
        wait_post(pending, expected, event, r, pending2),
    ensures
        pending2.subset_of(pending),
{
}

/// Bits 6, 8 to 14 and 20 to 23 of a status report's state number never
/// change the decoded state.
pub proof fn law_decode_ignores_unread_bits(state: u32)
    ensures
        state_of(state) == state_of(state & 0xFF0F80BF),
{
    let m = state & 0xFF0F80BF;
    assert(m & 0x10 == state & 0x10) by (bit_vector)
        requires m == state & 0xFF0F80BF;
    assert(m & 0x20 == state & 0x20) by (bit_vector)
        requires m == state & 0xFF0F80BF;
    assert(m & 0x80 == state & 0x80) by (bit_vector)
        requires m == state & 0xFF0F80BF;
    assert(m & 0x07 == state & 0x07) by (bit_vector)
        requires m == state & 0xFF0F80BF;
    assert(m & 0x08 == state & 0x08) by (bit_vector)
        requires m == state & 0xFF0F80BF;
    assert(m & 0x8000 == state & 0x8000) by (bit_vector)
        requires m == state & 0xFF0F80BF;
    assert(m & 0x0F0000 == state & 0x0F0000) by (bit_vector)
        requires m == state & 0xFF0F80BF;
    assert(m & 0xFF000000 == state & 0xFF000000) by (bit_vector)
        requires m == state & 0xFF0F80BF;
}

/// No two devices have the same alias.
pub open spec fn aliases_unique(e: Seq<(Seq<char>, DeviceView)>) -> bool {
    forall|i: int, j: int|
        #![trigger e[i], e[j]]
        0 <= i < j < e.len() && e[i].1.alias is Some ==> e[i].1.alias != e[j].1.alias
}

/// `set_alias` keeps aliases unique across devices, whether it succeeds or
/// fails.
pub proof fn law_set_alias_keeps_aliases_unique(
    e: Seq<(Seq<char>, DeviceView)>,
    g: Seq<(Seq<char>, Seq<Seq<char>>)>,
    id: Seq<char>,
    alias: Seq<char>,
    r: Result<bool, ConfigError>,
    e2: Seq<(Seq<char>, DeviceView)>,
    g2: Seq<(Seq<char>, Seq<Seq<char>>)>,
)
    requires
        device_keys(e).no_duplicates(),
        aliases_unique(e),
        set_alias_post(e, g, id, alias, r, e2, g2),
    ensures
        aliases_unique(e2),
{
    let a = trim_spec(alias);
    let k = normalized_id(id);
    if let AliasChange::Assign(i) = crate::config::ops::alias_change(e, id, alias) {
        device_keys(e).index_of_first_ensures(k);
        device_aliases(e).index_of_first_ensures(Some(a));
        assert(alias_pos(e, a) is None) by {
            if let Some(p) = alias_pos(e, a) {
                assert(device_keys(e)[p] == device_keys(e)[i]);
            }
        }
        assert forall|j: int| 0 <= j < e.len() implies e[j].1.alias != Some(a) by {
            assert(device_aliases(e)[j] == e[j].1.alias);
        }
        assert forall|p: int, q: int|
            #![trigger e2[p], e2[q]]
            0 <= p < q < e2.len() && e2[p].1.alias is Some implies e2[p].1.alias != e2[q].1.alias by {
            if p != i && q != i {
                assert(e2[p] == e[p] && e2[q] == e[q]);
            }
        }
    }
}

/// `rename_alias` and `remove_alias` keep aliases unique too: both set an
/// alias as `set_alias` does.
pub proof fn law_rename_and_remove_alias_keep_aliases_unique(
    e: Seq<(Seq<char>, DeviceView)>,
    g: Seq<(Seq<char>, Seq<Seq<char>>)>,
    a: Seq<char>,
    b: Seq<char>,
    r: Result<bool, ConfigError>,
    e2: Seq<(Seq<char>, DeviceView)>,
    g2: Seq<(Seq<char>, Seq<Seq<char>>)>,
)
    requires
        device_keys(e).no_duplicates(),
        aliases_unique(e),
        rename_alias_post(e, g, a, b, r, e2, g2) || remove_alias_post(e, g, a, r, e2, g2),
    ensures
        aliases_unique(e2),
{
    if rename_alias_post(e, g, a, b, r, e2, g2) {
        if trim_spec(a).len() > 0 && trim_spec(b).len() > 0 && alias_owner(e, trim_spec(a)) is Some {
            law_set_alias_keeps_aliases_unique(e, g, alias_owner(e, trim_spec(a))->0, trim_spec(b), r, e2, g2);
        }
    } else {
        let x = trim_spec(a);
        if x.len() > 0 && alias_owner(e, x) is Some {
            let k = alias_owner(e, x)->0;
            law_set_alias_keeps_aliases_unique(e, g, k, crate::config::model::device_lookup(e, k)->0.id, r, e2, g2);
        }
    }
}

/// Taking out the first `x` and putting one `x` back gives the same set.
pub proof fn lemma_remove_value_to_set(m: Seq<Seq<char>>, x: Seq<char>)
    requires
        m.contains(x),
    ensures
        m.remove_value(x).to_set().insert(x) == m.to_set(),
        m.remove_value(x).to_set().subset_of(m.to_set()),
{
    m.index_of_first_ensures(x);
    let k = m.index_of_first(x)->0;
    let p = m.remove_value(x);
    assert(p =~= m.remove(k));
    assert forall|y: Seq<char>| p.to_set().contains(y) implies m.to_set().contains(y) by {
        let j = choose|j: int| 0 <= j < p.len() && p[j] == y;
        if j < k {
            assert(m[j] == y);
        } else {
            assert(m[j + 1] == y);
        }
    }
    assert forall|y: Seq<char>| m.to_set().contains(y) && y != x implies p.to_set().contains(y) by {
        let j = choose|j: int| 0 <= j < m.len() && m[j] == y;
        if j < k {
            assert(p[j] == y);
        } else {
            assert(j != k);
            assert(p[j - 1] == y);
        }
    }
    assert(m.to_set().contains(x)) by {
        assert(m[k] == x);
    }
    assert(p.to_set().insert(x) =~= m.to_set());
}

/// Taking out an entry that was appended to a list without it gives the list back.
pub proof fn lemma_push_remove_value(p: Seq<Seq<char>>, x: Seq<char>)
    requires
        !p.contains(x),
    ensures
        p.push(x).remove_value(x) == p,
{
    assert forall|j: int| 0 <= j < p.len() implies p.push(x)[j] != x by {
        assert(p.push(x)[j] == p[j]);
    }
    crate::config::model::lemma_first_at(p.push(x), x, p.len() as int);
    assert(p.push(x).remove(p.len() as int) =~= p);
}

/// Renaming an alias and renaming it back restores the devices, and every
/// group keeps its name, place and set of members (an entry naming the alias
/// may move to the end of its group). This holds when the configuration keys
/// devices by trimmed upper-case ID, aliases are unique, the two aliases are
/// trimmed, distinct and non-empty, the first names a device, and no device
/// or group entry uses the second yet.
pub proof fn law_rename_alias_round_trip(
    e: Seq<(Seq<char>, DeviceView)>,
    g: Seq<(Seq<char>, Seq<Seq<char>>)>,
    o: Seq<char>,
    n: Seq<char>,
    r1: Result<bool, ConfigError>,
    e1: Seq<(Seq<char>, DeviceView)>,
    g1: Seq<(Seq<char>, Seq<Seq<char>>)>,
    r2: Result<bool, ConfigError>,
    e2: Seq<(Seq<char>, DeviceView)>,
    g2: Seq<(Seq<char>, Seq<Seq<char>>)>,
)
    requires
        device_keys(e).no_duplicates(),
        forall|i: int| 0 <= i < e.len() ==> normalized_id(#[trigger] e[i].0) == e[i].0,
        aliases_unique(e),
        trim_spec(o) == o,
        trim_spec(n) == n,
        o.len() > 0,
        n.len() > 0,
        o != n,
        alias_owner(e, o) is Some,
        alias_owner(e, n) is None,
        forall|i: int| 0 <= i < g.len() ==> !(#[trigger] g[i].1).contains(n),
        rename_alias_post(e, g, o, n, r1, e1, g1),
        rename_alias_post(e1, g1, n, o, r2, e2, g2),
    ensures
        r1 == Ok::<bool, ConfigError>(true),
        r2 == Ok::<bool, ConfigError>(true),
        e2 == e,
        g2.len() == g.len(),
        forall|i: int| #![trigger g2[i]] 0 <= i < g.len() ==> g2[i].0 == g[i].0 && g2[i].1.to_set() == g[i].1.to_set(),
{
    device_aliases(e).index_of_first_ensures(Some(o));
    device_aliases(e).index_of_first_ensures(Some(n));
    let p = alias_pos(e, o)->0;
    let k = e[p].0;
    assert(e[p].1.alias == Some(o));
    device_keys(e).index_of_first_ensures(k);
    crate::config::model::lemma_first_of_distinct(device_keys(e), p);
    assert(device_pos(e, k) == Some(p));
    assert(crate::config::ops::alias_change(e, k, n) == AliasChange::Assign(p));
    assert(e1 == e.update(p, (k, with_alias(e[p].1, n))));
    assert(device_keys(e1) =~= device_keys(e));
    // In `e1`, `n` belongs to the device at `p` alone, and `o` to none.
    assert forall|j: int| 0 <= j < e1.len() && j != p implies e1[j].1.alias != Some(n)
        && e1[j].1.alias != Some(o) by {
        assert(device_aliases(e)[j] == e[j].1.alias);
        if j < p {
            assert(e[j].1.alias != Some(o));
        } else {
            assert(e[p].1.alias != e[j].1.alias);
        }
    }
    assert forall|j: int| 0 <= j < p implies device_aliases(e1)[j] != Some(n) by {
        assert(device_aliases(e1)[j] == e1[j].1.alias);
    }
    assert(device_aliases(e1)[p] == Some(n));
    crate::config::model::lemma_first_at(device_aliases(e1), Some(n), p);
    assert(alias_owner(e1, n) == Some(k));
    device_aliases(e1).index_of_first_ensures(Some(o));
    assert(alias_pos(e1, o) is None) by {
        if let Some(q) = alias_pos(e1, o) {
            assert(device_aliases(e1)[q] == e1[q].1.alias);
        }
    }
    device_keys(e1).index_of_first_ensures(k);
    assert(device_pos(e1, k) == Some(p));
    assert(crate::config::ops::alias_change(e1, k, o) == AliasChange::Assign(p));
    assert(e2 =~= e);
    assert forall|i: int| #![trigger g2[i]] 0 <= i < g.len() implies g2[i].0 == g[i].0
        && g2[i].1.to_set() == g[i].1.to_set() by {
        let m = g[i].1;
        assert(g1[i] == (g[i].0, crate::config::ops::remap_members(m, o, n)));
        if m.contains(o) {
            let p0 = m.remove_value(o);
            lemma_remove_value_to_set(m, o);
            assert(!p0.contains(n)) by {
                if p0.contains(n) {
                    assert(p0.to_set().contains(n));
                    assert(m.to_set().contains(n));
                }
            }
            assert(g1[i].1 == p0.push(n));
            assert(p0.push(n)[p0.len() as int] == n);
            lemma_push_remove_value(p0, n);
            if p0.contains(o) {
                assert(p0.to_set().contains(o));
                assert(p0.to_set().insert(o) =~= p0.to_set());
            } else {
                p0.lemma_push_to_set_commute(o);
            }
        }
    }
}

/// The hexadecimal text of at least six bytes is a status frame that decodes
/// to those bytes: `parse_frame` on it returns them.
pub proof fn law_status_frame_round_trip(bytes: Seq<u8>)
    requires
        bytes.len() >= 6,
    ensures
        hex_encoded(bytes).len() >= 12,
        hex_decodable(hex_encoded(bytes)),
        hex_decoded(hex_encoded(bytes)) == bytes,
{
    lemma_hex_round_trip(bytes);
}

/// A command carries each given setting, under its own key and with its own
/// value, and nothing else.
pub proof fn law_payload_carries_settings(o: CommandOptions)
    ensures
        o.power matches Some(p) ==> option_fields(o).dom().contains("power"@) && option_fields(o)["power"@] == JsonScalar::Bool(p),
        o.power is None ==> !option_fields(o).dom().contains("power"@),
        o.speed matches Some(p) ==> option_fields(o).dom().contains("speed"@) && option_fields(o)["speed"@] == JsonScalar::Number(p as nat),
        o.speed is None ==> !option_fields(o).dom().contains("speed"@),
        o.sleep matches Some(p) ==> option_fields(o).dom().contains("sleep"@) && option_fields(o)["sleep"@] == JsonScalar::Bool(p),
        o.sleep is None ==> !option_fields(o).dom().contains("sleep"@),
        o.timer matches Some(p) ==> option_fields(o).dom().contains("timer"@) && option_fields(o)["timer"@] == JsonScalar::Number(p as nat),
        o.timer is None ==> !option_fields(o).dom().contains("timer"@),
        o.led matches Some(p) ==> option_fields(o).dom().contains("led"@) && option_fields(o)["led"@] == JsonScalar::Bool(p),
        o.led is None ==> !option_fields(o).dom().contains("led"@),
        o.brightness matches Some(p) ==> option_fields(o).dom().contains("brightness"@) && option_fields(o)["brightness"@] == JsonScalar::Number(p as nat),
        o.brightness is None ==> !option_fields(o).dom().contains("brightness"@),
        o.light_mode matches Some(p) ==> option_fields(o).dom().contains("light_mode"@) && option_fields(o)["light_mode"@] == JsonScalar::Text(light_mode_text(p)),
        o.light_mode is None ==> !option_fields(o).dom().contains("light_mode"@),
        forall|k: Seq<char>| #[trigger] option_fields(o).dom().contains(k) ==> k == "power"@ || k == "speed"@
            || k == "sleep"@ || k == "timer"@ || k == "led"@ || k == "brightness"@ || k == "light_mode"@,
{
    reveal_strlit("power");
    reveal_strlit("speed");
    reveal_strlit("sleep");
    reveal_strlit("timer");
    reveal_strlit("led");
    reveal_strlit("brightness");
    reveal_strlit("light_mode");
    assert("power"@[0] != "speed"@[0]);
    assert("power"@[0] != "sleep"@[0]);
    assert("power"@[0] != "timer"@[0]);
    assert("power"@[0] != "led"@[0]);
    assert("power"@[0] != "brightness"@[0]);
    assert("power"@[0] != "light_mode"@[0]);
    assert("speed"@[1] != "sleep"@[1]);
    assert("speed"@[0] != "timer"@[0]);
    assert("speed"@[0] != "led"@[0]);
    assert("speed"@[0] != "brightness"@[0]);
    assert("speed"@[0] != "light_mode"@[0]);
    assert("sleep"@[0] != "timer"@[0]);
    assert("sleep"@[0] != "led"@[0]);
    assert("sleep"@[0] != "brightness"@[0]);
    assert("sleep"@[0] != "light_mode"@[0]);
    assert("timer"@[0] != "led"@[0]);
    assert("timer"@[0] != "brightness"@[0]);
    assert("timer"@[0] != "light_mode"@[0]);
    assert("led"@[0] != "brightness"@[0]);
    assert("led"@[1] != "light_mode"@[1]);
    assert("brightness"@[0] != "light_mode"@[0]);
}

/// The settings' accepted ranges: speed 1 to 6, timer 0 to 4, brightness 10
/// to 100. A setting outside its range is refused, and options whose settings
/// are all in range raise no range error.
pub proof fn law_setting_ranges(o: CommandOptions)
    ensures
        range_error(o) is None <==> (o.speed matches Some(s) ==> 1 <= s <= 6) && (o.timer matches Some(t)
            ==> t <= 4) && (o.brightness matches Some(b) ==> 10 <= b <= 100),
        o.speed matches Some(s) && !(1 <= s <= 6) ==> range_error(o) == Some(CommandError::SpeedOutOfRange),
{
}

/// A state matches a request exactly when every requested setting has the
/// requested value: a single differing requested setting makes it fail.
pub proof fn law_match_needs_every_setting(actual: DeviceState, expected: RequestedState)
    ensures
        expected.power matches Some(p) && actual.power != p ==> !satisfies(actual, expected),
        expected.speed matches Some(s) && actual.speed != s ==> !satisfies(actual, expected),
        expected.sleep matches Some(s) && actual.sleep != s ==> !satisfies(actual, expected),
        expected.timer matches Some(t) && actual.timer != t ==> !satisfies(actual, expected),
        expected.led matches Some(l) && actual.led != l ==> !satisfies(actual, expected),
        expected.brightness matches Some(b) && actual.brightness != Some(b) ==> !satisfies(actual, expected),
        expected.light_mode matches Some(m) && actual.light_mode != Some(m) ==> !satisfies(actual, expected),
        (expected.power matches Some(p) ==> actual.power == p) && (expected.speed matches Some(s) ==> actual.speed
            == s) && (expected.sleep matches Some(s) ==> actual.sleep == s) && (expected.timer matches Some(t)
            ==> actual.timer == t) && (expected.led matches Some(l) ==> actual.led == l) && (
        expected.brightness matches Some(b) ==> actual.brightness == Some(b)) && (expected.light_mode matches Some(
            m,
        ) ==> actual.light_mode == Some(m)) ==> satisfies(actual, expected),
{
}

/// The state field of a report is the text before its first comma: it holds
/// no comma, and a comma follows it in the state string.
pub proof fn law_first_field_before_first_comma(s: Seq<char>)
    requires
        s.contains(','),
    ensures
        first_field(s).len() < s.len(),
        first_field(s) == s.take(first_field(s).len() as int),
        s[first_field(s).len() as int] == ',',
        !first_field(s).contains(','),
{
    s.index_of_first_ensures(',');
    let k = s.index_of_first(',')->0;
    assert(first_field(s) =~= s.take(k));
    if first_field(s).contains(',') {
        let j = choose|j: int| 0 <= j < first_field(s).len() && first_field(s)[j] == ',';
        assert(s[j] == ',');
    }
}

/// A successful `delete_group` leaves no device listing the group, and every
/// other group a device listed stays listed; keys, IDs, aliases and addresses
/// do not change.
pub proof fn law_delete_group_unlists(
    e: Seq<(Seq<char>, DeviceView)>,
    g: Seq<(Seq<char>, Seq<Seq<char>>)>,
    name: Seq<char>,
    r: Result<bool, ConfigError>,
    e2: Seq<(Seq<char>, DeviceView)>,
    g2: Seq<(Seq<char>, Seq<Seq<char>>)>,
)
    requires
        delete_group_post(e, g, name, r, e2, g2),
        r is Ok,
    ensures
        e2.len() == e.len(),
        forall|i: int| #![trigger e2[i]] 0 <= i < e.len() ==> {
            &&& e2[i].0 == e[i].0
            &&& e2[i].1.id == e[i].1.id
            &&& e2[i].1.alias == e[i].1.alias
            &&& e2[i].1.ip == e[i].1.ip
            &&& !e2[i].1.groups.contains(trim_spec(name))
            &&& forall|x: Seq<char>| x != trim_spec(name) ==> (e2[i].1.groups.contains(x) <==> e[i].1.groups.contains(x))
        },
        g2.len() + 1 == g.len(),
{
    let n = trim_spec(name);
    assert forall|i: int| #![trigger e2[i]] 0 <= i < e.len() implies {
        &&& e2[i].0 == e[i].0
        &&& e2[i].1.id == e[i].1.id
        &&& e2[i].1.alias == e[i].1.alias
        &&& e2[i].1.ip == e[i].1.ip
        &&& !e2[i].1.groups.contains(n)
        &&& forall|x: Seq<char>| x != n ==> (e2[i].1.groups.contains(x) <==> e[i].1.groups.contains(x))
    } by {
        let s0 = e[i].1.groups;
        lemma_without_contains(s0, n);
    }
    group_names(g).index_of_first_ensures(n);
}

/// What `without` keeps: every entry but `n`.
pub proof fn lemma_without_contains(s: Seq<Seq<char>>, n: Seq<char>)
    ensures
        !without(s, n).contains(n),
        forall|x: Seq<char>| x != n ==> (without(s, n).contains(x) <==> s.contains(x)),
    decreases s.len(),
{
    reveal(Seq::filter);
    if s.len() > 0 {
        let init = s.drop_last();
        lemma_without_contains(init, n);
        assert(s =~= init.push(s.last()));
        if s.last() != n {
            assert(without(s, n) == without(init, n).push(s.last()));
        } else {
            assert(without(s, n) == without(init, n));
        }
        assert forall|x: Seq<char>| x != n implies (without(s, n).contains(x) <==> s.contains(x)) by {
            if s.contains(x) && !init.contains(x) {
                let j = choose|j: int| 0 <= j < s.len() && s[j] == x;
                if j < init.len() {
                    assert(init[j] == x);
                }
                assert(x == s.last());
                assert(without(s, n).last() == x);
            }
            if init.contains(x) {
                let j = choose|j: int| 0 <= j < init.len() && init[j] == x;
                assert(s[j] == x);
            }
            if without(s, n).contains(x) && !without(init, n).contains(x) {
                let j = choose|j: int| 0 <= j < without(s, n).len() && without(s, n)[j] == x;
                if j < without(init, n).len() {
                    assert(without(init, n)[j] == x);
                }
                assert(s[s.len() - 1] == x);
            }
            if without(init, n).contains(x) {
                let j = choose|j: int| 0 <= j < without(init, n).len() && without(init, n)[j] == x;
                if s.last() != n {
                    assert(without(s, n)[j] == x);
                } else {
                    assert(without(s, n)[j] == x);
                }
            }
        }
        if without(s, n).contains(n) {
            let j = choose|j: int| 0 <= j < without(s, n).len() && without(s, n)[j] == n;
            if s.last() != n {
                if j < without(init, n).len() {
                    assert(without(init, n)[j] == n);
                }
            } else {
                assert(without(init, n)[j] == n);
            }
        }
    }
}

/// While waiting: a timeout ends the wait as timed out; a status report
/// from a pending device whose first state field shows every requested
/// setting settles that device; any other event settles nothing.
pub proof fn law_wait_settles_matching_reports(
    pending: Set<Seq<char>>,
    expected: RequestedState,
    event: WaitEvent,
    r: WaitOutcome,
    pending2: Set<Seq<char>>,
)
    requires
        wait_post(pending, expected, event, r, pending2),
    ensures
        event is TimedOut ==> r.step == WaitStep::Done(SendWorkflowResult { timed_out: true }) && pending2 == pending,
        event matches WaitEvent::Packet(Payload::Becon(_)) ==> pending2 == pending,
        event matches WaitEvent::Packet(Payload::Status(st)) ==> {
            let id = unicode_uppercase(st.device_id@);
            let field = first_field(st.state_string@);
            &&& (!pending.contains(id) || st.message_id@ == "internet_query"@ || !st.state_string@.contains(','))
                ==> pending2 == pending
            &&& (pending.contains(id) && st.message_id@ != "internet_query"@ && st.state_string@.contains(','))
                ==> match parse_unsigned_spec(field, 0xffff_ffff) {
                Some(v) => if satisfies(state_of(v as u32), expected) {
                    pending2 == pending.remove(id) && !pending2.contains(id)
                } else {
                    pending2 == pending
                },
                None => pending2 == pending && r.step is Failed,
            }
        },
        pending2.subset_of(pending),
{
}

} // verus!
