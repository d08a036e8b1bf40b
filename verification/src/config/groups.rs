//! The group table: an `IndexMap` from group name to an `IndexSet` of member
//! entries (device IDs or aliases), both in insertion order. The `indexmap`
//! calls that the configuration logic makes stand here, each with what the
//! crate's source shows it does to the entries.
use indexmap::{IndexMap, IndexSet};
use vstd::prelude::*;

verus! {

#[verifier::external_type_specification]
#[verifier::external_body]
#[verifier::reject_recursive_types(K)]
#[verifier::reject_recursive_types(V)]
#[verifier::reject_recursive_types(S)]
pub struct ExIndexMap<K, V, S>(IndexMap<K, V, S>);

#[verifier::external_type_specification]
#[verifier::external_body]
#[verifier::reject_recursive_types(T)]
#[verifier::reject_recursive_types(S)]
pub struct ExIndexSet<T, S>(IndexSet<T, S>);

/// The entries of a member set, in the set's order.
pub uninterp spec fn member_list(s: IndexSet<String>) -> Seq<Seq<char>>;

/// The entries of a group table, in the table's order: each group's name and
/// the entries of its member set.
pub uninterp spec fn group_entries(m: IndexMap<String, IndexSet<String>>) -> Seq<(Seq<char>, Seq<Seq<char>>)>;

/// The names of the groups, in order.
pub open spec fn group_names(e: Seq<(Seq<char>, Seq<Seq<char>>)>) -> Seq<Seq<char>> {
    e.map_values(|p: (Seq<char>, Seq<Seq<char>>)| p.0)
}

/// The position of group `name`, if the table has it.
pub open spec fn group_pos(e: Seq<(Seq<char>, Seq<Seq<char>>)>, name: Seq<char>) -> Option<int> {
    group_names(e).index_of_first(name)
}

/// What `IndexSet::insert` leaves: the entries, with `x` appended unless it is already there.
pub open spec fn members_with(m: Seq<Seq<char>>, x: Seq<char>) -> Seq<Seq<char>> {
    if m.contains(x) {
        m
    } else {
        m.push(x)
    }
}

/// What `IndexMap::insert` leaves: the value of `name` replaced in place, or a
/// new entry appended when the table has no such group.
pub open spec fn groups_with(
    e: Seq<(Seq<char>, Seq<Seq<char>>)>,
    name: Seq<char>,
    members: Seq<Seq<char>>,
) -> Seq<(Seq<char>, Seq<Seq<char>>)> {
    match group_pos(e, name) {
        Some(i) => e.update(i, (name, members)),
        None => e.push((name, members)),
    }
}

/// What `IndexMap::shift_remove` leaves: the table without group `name`.
pub open spec fn groups_without(e: Seq<(Seq<char>, Seq<Seq<char>>)>, name: Seq<char>) -> Seq<
    (Seq<char>, Seq<Seq<char>>),
> {
    match group_pos(e, name) {
        Some(i) => e.remove(i),
        None => e,
    }
}

/// `IndexSet::new`: a set with no entries.
#[verifier::external_body]
pub(crate) fn members_new() -> (r: IndexSet<String>)
    ensures
        member_list(r) == Seq::<Seq<char>>::empty(),
{
    IndexSet::new()
}

/// `IndexSet::insert`: appends `x` unless an equal entry is there; says whether it did.
#[verifier::external_body]
pub(crate) fn members_insert(s: &mut IndexSet<String>, x: String) -> (r: bool)
    ensures
        r == !member_list(*old(s)).contains(x@),
        member_list(*final(s)) == members_with(member_list(*old(s)), x@),
{
    s.insert(x)
}

/// `IndexSet::shift_remove`: removes the entry equal to `x`, keeping the order
/// of the rest; says whether there was one.
#[verifier::external_body]
pub(crate) fn members_shift_remove(s: &mut IndexSet<String>, x: &str) -> (r: bool)
    ensures
        r == member_list(*old(s)).contains(x@),
        member_list(*final(s)) == member_list(*old(s)).remove_value(x@),
{
    s.shift_remove(x)
}

/// `IndexSet::len`.
#[verifier::external_body]
pub(crate) fn members_len(s: &IndexSet<String>) -> (r: usize)
    ensures
        r == member_list(*s).len(),
{
    s.len()
}

/// `IndexSet`'s `Index<usize>`: the entry at position `i`.
#[verifier::external_body]
pub(crate) fn members_at(s: &IndexSet<String>, i: usize) -> (r: &String)
    requires
        i < member_list(*s).len(),
    ensures
        r@ == member_list(*s)[i as int],
{
    &s[i]
}

/// `IndexMap::new`: a table with no groups.
#[verifier::external_body]
pub(crate) fn groups_new() -> (r: IndexMap<String, IndexSet<String>>)
    ensures
        group_entries(r) == Seq::<(Seq<char>, Seq<Seq<char>>)>::empty(),
{
    IndexMap::new()
}

/// `IndexMap::len`.
#[verifier::external_body]
pub(crate) fn groups_len(m: &IndexMap<String, IndexSet<String>>) -> (r: usize)
    ensures
        r == group_entries(*m).len(),
{
    m.len()
}

/// `IndexMap::get_index`: the name and member set at position `i`.
#[verifier::external_body]
pub(crate) fn groups_entry_at<'a>(m: &'a IndexMap<String, IndexSet<String>>, i: usize) -> (r: Option<
    (&'a String, &'a IndexSet<String>),
>)
    ensures
        r is Some <==> i < group_entries(*m).len(),
        r matches Some(p) ==> p.0@ == group_entries(*m)[i as int].0 && member_list(*p.1) == group_entries(
            *m,
        )[i as int].1,
{
    m.get_index(i)
}

/// `IndexMap::contains_key`.
#[verifier::external_body]
pub(crate) fn groups_contains(m: &IndexMap<String, IndexSet<String>>, name: &str) -> (r: bool)
    ensures
        r == group_names(group_entries(*m)).contains(name@),
{
    m.contains_key(name)
}

/// `IndexMap::get_index_of`: the position of group `name`.
#[verifier::external_body]
pub(crate) fn groups_index_of(m: &IndexMap<String, IndexSet<String>>, name: &str) -> (r: Option<usize>)
    ensures
        r matches Some(i) ==> group_pos(group_entries(*m), name@) == Some(i as int),
        r is None ==> group_pos(group_entries(*m), name@) is None,
{
    m.get_index_of(name)
}

/// `IndexMap::get`: the member set of group `name`.
#[verifier::external_body]
pub(crate) fn groups_get<'a>(m: &'a IndexMap<String, IndexSet<String>>, name: &str) -> (r: Option<
    &'a IndexSet<String>,
>)
    ensures
        r is Some <==> group_pos(group_entries(*m), name@) is Some,
        r matches Some(s) ==> member_list(*s) == group_entries(*m)[group_pos(
            group_entries(*m),
            name@,
        )->0].1,
{
    m.get(name)
}

/// `IndexMap::insert`: sets the member set of group `name`, in place when the
/// group exists and as a new last entry otherwise.
#[verifier::external_body]
pub(crate) fn groups_insert(m: &mut IndexMap<String, IndexSet<String>>, name: String, members: IndexSet<
    String,
>)
    ensures
        group_entries(*final(m)) == groups_with(group_entries(*old(m)), name@, member_list(members)),
{
    m.insert(name, members);
}

/// `IndexMap::shift_remove`: removes group `name`, keeping the order of the
/// rest, and hands back its member set.
#[verifier::external_body]
pub(crate) fn groups_shift_remove(m: &mut IndexMap<String, IndexSet<String>>, name: &str) -> (r: Option<
    IndexSet<String>,
>)
    ensures
        r is Some <==> group_pos(group_entries(*old(m)), name@) is Some,
        r matches Some(s) ==> member_list(s) == group_entries(*old(m))[group_pos(
            group_entries(*old(m)),
            name@,
        )->0].1,
        group_entries(*final(m)) == groups_without(group_entries(*old(m)), name@),
{
    m.shift_remove(name)
}

/// `IndexMap`'s `IndexMut<usize>`: the member set at position `i`, to change in place.
#[verifier::external_body]
pub(crate) fn groups_at_mut<'a>(m: &'a mut IndexMap<String, IndexSet<String>>, i: usize) -> (r: &'a mut IndexSet<String>)
    requires
        i < group_entries(*old(m)).len(),
    ensures
        member_list(*r) == group_entries(*old(m))[i as int].1,
        group_entries(*final(m)) == group_entries(*old(m)).update(
            i as int,
            (group_entries(*old(m))[i as int].0, member_list(*final(r))),
        ),
{
    &mut m[i]
}

} // verus!
