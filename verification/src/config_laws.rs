//! What draws a warning about a configuration.

use crate::config::{
    all_name_warnings, first_at, first_at_is_least, first_named, first_named_is_least, ip_warnings,
    listings, name_key, name_warnings, no_ip_warnings_iff_distinct, no_name_warnings_in_groups,
    Config, GroupConfig,
};
use crate::text::{same_ignoring_case, trimmed};
use vstd::prelude::*;

verus! {

// ── Places ───────────────────────────────────────────────────────────────

/// How many hosts the first `g` groups list.
pub open spec fn hosts_before(groups: Seq<GroupConfig>, g: int) -> int
    decreases g,
{
    if g <= 0 {
        0
    } else {
        hosts_before(groups, g - 1) + groups[g - 1].hosts@.len()
    }
}

/// The place of a host in the whole configuration: how many stand before it.
pub open spec fn place(groups: Seq<GroupConfig>, g: int, i: int) -> int {
    hosts_before(groups, g) + i
}

/// There is a host at position `i` of the group at position `g`.
pub open spec fn is_host(groups: Seq<GroupConfig>, g: int, i: int) -> bool {
    0 <= g < groups.len() && 0 <= i < groups[g].hosts@.len()
}

/// The address of a host, without white space around it.
pub open spec fn address(groups: Seq<GroupConfig>, g: int, i: int) -> Seq<char> {
    trimmed(groups[g].hosts@[i].ip@)
}

proof fn hosts_before_grow(groups: Seq<GroupConfig>, g: int, k: int)
    requires
        g <= k,
    ensures
        0 <= hosts_before(groups, g) <= hosts_before(groups, k),
    decreases k - g, k,
{
    if g < k {
        hosts_before_grow(groups, g, k - 1);
    } else if g > 0 {
        hosts_before_grow(groups, g - 1, g - 1);
    }
}

proof fn places_ascend(groups: Seq<GroupConfig>, g: int, i: int, k: int, j: int)
    requires
        is_host(groups, g, i),
        is_host(groups, k, j),
    ensures
        place(groups, g, i) < place(groups, k, j) <==> g < k || g == k && i < j,
        place(groups, g, i) == place(groups, k, j) <==> g == k && i == j,
{
    if g < k {
        hosts_before_grow(groups, g + 1, k);
    } else if k < g {
        hosts_before_grow(groups, k + 1, g);
    }
}

/// The hosts are looked through in the order of the configuration, each with its
/// name, its group's name and its address as they stand there.
proof fn listed_at_its_place(groups: Seq<GroupConfig>, n: int, g: int, i: int)
    requires
        0 <= g < n <= groups.len(),
        0 <= i < groups[g].hosts@.len(),
    ensures
        0 <= place(groups, g, i) < listings(groups, n).len(),
        listings(groups, n)[place(groups, g, i)].name == groups[g].hosts@[i].name@,
        listings(groups, n)[place(groups, g, i)].ip == trimmed(groups[g].hosts@[i].ip@),
        listings(groups, n)[place(groups, g, i)].group == groups[g].name@,
    decreases n,
{
    listings_len(groups, n - 1);
    hosts_before_grow(groups, 0, n - 1);
    hosts_before_grow(groups, 0, g);
    if g < n - 1 {
        listed_at_its_place(groups, n - 1, g, i);
    }
}

proof fn listings_len(groups: Seq<GroupConfig>, n: int)
    requires
        0 <= n <= groups.len(),
    ensures
        listings(groups, n).len() == hosts_before(groups, n),
    decreases n,
{
    if n > 0 {
        listings_len(groups, n - 1);
    }
}

proof fn place_has_a_host(groups: Seq<GroupConfig>, n: int, q: int) -> (at: (int, int))
    requires
        0 <= n <= groups.len(),
        0 <= q < hosts_before(groups, n),
    ensures
        is_host(groups, at.0, at.1),
        at.0 < n,
        place(groups, at.0, at.1) == q,
    decreases n,
{
    if q < hosts_before(groups, n - 1) {
        place_has_a_host(groups, n - 1, q)
    } else {
        (n - 1, q - hosts_before(groups, n - 1))
    }
}

/// Every host of the configuration is looked at, with its own name, address and
/// group; nothing else is.
pub proof fn every_host_is_looked_at(config: Config, g: int, i: int)
    requires
        is_host(config.group@, g, i),
    ensures
        config.listed().len() == hosts_before(config.group@, config.group@.len() as int),
        0 <= place(config.group@, g, i) < config.listed().len(),
        config.listed()[place(config.group@, g, i)].name == config.group@[g].hosts@[i].name@,
        config.listed()[place(config.group@, g, i)].ip == trimmed(
            config.group@[g].hosts@[i].ip@,
        ),
        config.listed()[place(config.group@, g, i)].group == config.group@[g].name@,
{
    listings_len(config.group@, config.group@.len() as int);
    listed_at_its_place(config.group@, config.group@.len() as int, g, i);
}

// ── Whether there are warnings ───────────────────────────────────────────

/// Two hosts of one group have the same name, up to case and white space around it.
pub open spec fn repeats_a_name(groups: Seq<GroupConfig>) -> bool {
    exists|g: int, i: int, j: int|
        0 <= g < groups.len() && 0 <= i < j < groups[g].hosts@.len() && same_ignoring_case(
            trimmed((#[trigger] groups[g].hosts@[i]).name@),
            trimmed((#[trigger] groups[g].hosts@[j]).name@),
        )
}

/// Two different hosts have the same address, up to white space around it; a blank
/// one does not count.
pub open spec fn repeats_an_address(groups: Seq<GroupConfig>) -> bool {
    exists|g: int, i: int, k: int, j: int| #[trigger]
        is_host(groups, g, i) && #[trigger] is_host(groups, k, j) && !(g == k && i == j)
            && trimmed(groups[g].hosts@[i].ip@).len() > 0 && trimmed(groups[g].hosts@[i].ip@)
            == trimmed(groups[k].hosts@[j].ip@)
}

/// A configuration draws a warning just if a group repeats a name, or if an address
/// is used twice anywhere in it.
pub proof fn warnings_just_for_repeated_names_and_addresses(config: Config)
    ensures
        config.warnings().len() > 0 <==> repeats_a_name(config.group@) || repeats_an_address(
            config.group@,
        ),
{
    let groups = config.group@;
    let n = groups.len() as int;
    let list = config.listed();
    no_name_warnings_in_groups(groups, n);
    no_ip_warnings_iff_distinct(list, list.len() as int);
    listings_len(groups, n);
    if repeats_a_name(groups) {
        let (g, i, j) = choose|g: int, i: int, j: int|
            0 <= g < groups.len() && 0 <= i < j < groups[g].hosts@.len() && same_ignoring_case(
                trimmed((#[trigger] groups[g].hosts@[i]).name@),
                trimmed((#[trigger] groups[g].hosts@[j]).name@),
            );
        assert(name_key(groups[g].hosts@[i]) == name_key(groups[g].hosts@[j]));
    }
    if all_name_warnings(groups, n).len() > 0 {
        let (g, i, j) = choose|g: int, i: int, j: int|
            0 <= g < n && 0 <= i < j < groups[g].hosts@.len() && name_key(
                #[trigger] groups[g].hosts@[i],
            ) == name_key(#[trigger] groups[g].hosts@[j]);
        assert(same_ignoring_case(
            trimmed(groups[g].hosts@[i].name@),
            trimmed(groups[g].hosts@[j].name@),
        ));
    }
    if repeats_an_address(groups) {
        let (g, i, k, j) = choose|g: int, i: int, k: int, j: int| #[trigger]
            is_host(groups, g, i) && #[trigger] is_host(groups, k, j) && !(g == k && i == j)
                && trimmed(groups[g].hosts@[i].ip@).len() > 0 && trimmed(groups[g].hosts@[i].ip@)
                == trimmed(groups[k].hosts@[j].ip@);
        listed_at_its_place(groups, n, g, i);
        listed_at_its_place(groups, n, k, j);
        places_ascend(groups, g, i, k, j);
        let p = place(groups, g, i);
        let q = place(groups, k, j);
        assert(list[p].ip == list[q].ip);
    }
    if ip_warnings(list, list.len() as int).len() > 0 {
        let (p, q) = choose|p: int, q: int|
            0 <= p < q < list.len() && list[q].ip.len() > 0 && (#[trigger] list[p]).ip == (
            #[trigger] list[q]).ip;
        let (g, i) = place_has_a_host(groups, n, p);
        let (k, j) = place_has_a_host(groups, n, q);
        listed_at_its_place(groups, n, g, i);
        listed_at_its_place(groups, n, k, j);
        places_ascend(groups, g, i, k, j);
        assert(is_host(groups, g, i) && is_host(groups, k, j));
    }
}

// ── What the warnings say ────────────────────────────────────────────────

/// The warnings are those on names, group by group, and then those on addresses.
pub proof fn names_are_warned_of_first(config: Config, g: int)
    requires
        0 <= g < config.group@.len(),
    ensures
        config.warnings() == all_name_warnings(config.group@, config.group@.len() as int)
            + ip_warnings(config.listed(), config.listed().len() as int),
        all_name_warnings(config.group@, 0).len() == 0,
        all_name_warnings(config.group@, g + 1) == all_name_warnings(config.group@, g)
            + name_warnings(config.group@[g], config.group@[g].hosts@.len() as int),
        name_warnings(config.group@[g], 0).len() == 0,
        ip_warnings(config.listed(), 0).len() == 0,
{
}

/// A host whose name stands earlier in its group draws one warning, which names the
/// group, the host and the first holder of the name.
pub proof fn repeated_name_draws_a_warning(group: GroupConfig, n: int, i: int)
    requires
        0 <= i < n < group.hosts@.len(),
        same_ignoring_case(trimmed(group.hosts@[i].name@), trimmed(group.hosts@[n].name@)),
        forall|k: int|
            0 <= k < i ==> !same_ignoring_case(
                trimmed((#[trigger] group.hosts@[k]).name@),
                trimmed(group.hosts@[n].name@),
            ),
    ensures
        name_warnings(group, n + 1) == name_warnings(group, n).push(
            "group '"@ + group.name@ + "': duplicate host name '"@ + group.hosts@[n].name@
                + "' (already defined as '"@ + group.hosts@[i].name@ + "')"@,
        ),
{
    first_named_is_least(group.hosts@, name_key(group.hosts@[n]), n);
    assert(name_key(group.hosts@[i]) == name_key(group.hosts@[n]));
    let f = first_named(group.hosts@, name_key(group.hosts@[n]), n);
    assert(f is Some);
    if f->0 < i {
        assert(same_ignoring_case(
            trimmed(group.hosts@[f->0].name@),
            trimmed(group.hosts@[n].name@),
        ));
    }
}

/// A host whose name does not stand earlier in its group draws no warning for it.
pub proof fn own_name_draws_no_warning(group: GroupConfig, n: int)
    requires
        0 <= n < group.hosts@.len(),
        forall|k: int|
            0 <= k < n ==> !same_ignoring_case(
                trimmed((#[trigger] group.hosts@[k]).name@),
                trimmed(group.hosts@[n].name@),
            ),
    ensures
        name_warnings(group, n + 1) == name_warnings(group, n),
{
    first_named_is_least(group.hosts@, name_key(group.hosts@[n]), n);
    let f = first_named(group.hosts@, name_key(group.hosts@[n]), n);
    if f is Some {
        assert(same_ignoring_case(
            trimmed(group.hosts@[f->0].name@),
            trimmed(group.hosts@[n].name@),
        ));
    }
}

/// A host whose address stands earlier in the configuration draws one warning, which
/// names the address, the host and its group, and the first host with the address
/// and its group.
pub proof fn repeated_address_draws_a_warning(config: Config, g: int, i: int, k: int, j: int)
    requires
        is_host(config.group@, g, i),
        is_host(config.group@, k, j),
        place(config.group@, g, i) < place(config.group@, k, j),
        address(config.group@, k, j).len() > 0,
        address(config.group@, g, i) == address(config.group@, k, j),
        forall|a: int, b: int| #[trigger]
            is_host(config.group@, a, b) && place(config.group@, a, b) < place(config.group@, g, i)
                ==> address(config.group@, a, b) != address(config.group@, k, j),
    ensures
        ({
            let groups = config.group@;
            let list = config.listed();
            let q = place(groups, k, j);
            ip_warnings(list, q + 1) == ip_warnings(list, q).push(
                "duplicate IP "@ + trimmed(groups[k].hosts@[j].ip@) + ": '"@
                    + groups[k].hosts@[j].name@ + "' in group '"@ + groups[k].name@
                    + "' (already used by '"@ + groups[g].hosts@[i].name@ + "' in group '"@
                    + groups[g].name@ + "')"@,
            )
        }),
{
    let groups = config.group@;
    let n = groups.len() as int;
    let list = config.listed();
    let p = place(groups, g, i);
    let q = place(groups, k, j);
    listings_len(groups, n);
    listed_at_its_place(groups, n, g, i);
    listed_at_its_place(groups, n, k, j);
    first_at_is_least(list, list[q].ip, q);
    let f = first_at(list, list[q].ip, q);
    assert(list[p].ip == list[q].ip);
    assert(f is Some);
    if f->0 < p {
        let (a, b) = place_has_a_host(groups, n, f->0);
        listed_at_its_place(groups, n, a, b);
        assert(is_host(groups, a, b));
    }
}

/// A host with a blank address, or with one that does not stand earlier in the
/// configuration, draws no warning for it.
pub proof fn own_address_draws_no_warning(config: Config, k: int, j: int)
    requires
        is_host(config.group@, k, j),
        address(config.group@, k, j).len() == 0 || forall|a: int, b: int| #[trigger]
            is_host(config.group@, a, b) && place(config.group@, a, b) < place(config.group@, k, j)
                ==> address(config.group@, a, b) != address(config.group@, k, j),
    ensures
        ip_warnings(config.listed(), place(config.group@, k, j) + 1) == ip_warnings(
            config.listed(),
            place(config.group@, k, j),
        ),
{
    let groups = config.group@;
    let n = groups.len() as int;
    let list = config.listed();
    let q = place(groups, k, j);
    listings_len(groups, n);
    listed_at_its_place(groups, n, k, j);
    first_at_is_least(list, list[q].ip, q);
    let f = first_at(list, list[q].ip, q);
    if f is Some && address(groups, k, j).len() > 0 {
        let (a, b) = place_has_a_host(groups, n, f->0);
        listed_at_its_place(groups, n, a, b);
        assert(is_host(groups, a, b));
    }
}

} // verus!
