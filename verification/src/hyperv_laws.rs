//! What holds of merging the machines of a hypervisor into its hosts.

use crate::app::App;
use crate::group::{first_called, first_called_in_range};
use crate::group_laws::{is_first_named, names_differ};
use crate::host::{host_views, id_after, HostStatus, HostView};
use crate::hyperv::{
    adopted, adopting, answers, can_merge, comma_parts, failure_text, first_ipv4, host_of,
    is_listed, is_new, looks_like_ipv4, merged, moving, newcomers, no_shell_text, past_children,
    past_children_are_children, picked, place_for, shell_names, staying, vm_address, vm_host,
    Inventory, VmInfo,
};
use crate::startup_laws::{ids_count_up, ids_within};
use crate::text::{same_ignoring_case, trimmed};
use crate::text_laws::split;
use vstd::prelude::*;

verus! {

// ── The parts of a merge ─────────────────────────────────────────────────

/// Adoption changes no host that is not listed, and marks each that is.
proof fn adopting_marks(hosts: Seq<HostView>, vms: Seq<VmInfo>, parent: Seq<char>, n: int)
    requires
        n <= vms.len(),
    ensures
        adopting(hosts, vms, parent, n).len() == hosts.len(),
        forall|i: int|
            0 <= i < hosts.len() && !is_listed(hosts, vms, i, n) ==> #[trigger] adopting(
                hosts,
                vms,
                parent,
                n,
            )[i] == hosts[i],
        forall|i: int|
            0 <= i < hosts.len() && is_listed(hosts, vms, i, n) ==> {
                let h = #[trigger] adopting(hosts, vms, parent, n)[i];
                h.is_child_vm && h.parent_host == Some(parent) && h.name == hosts[i].name && h.id
                    == hosts[i].id
            },
    decreases n,
{
    if n > 0 {
        adopting_marks(hosts, vms, parent, n - 1);
        first_called_in_range(hosts, vms[n - 1].name@, hosts.len() as int);
        let so_far = adopting(hosts, vms, parent, n - 1);
        let now = adopting(hosts, vms, parent, n);
        assert forall|i: int| 0 <= i < hosts.len() implies (is_listed(hosts, vms, i, n) <==> (
        is_listed(hosts, vms, i, n - 1) || host_of(hosts, vms[n - 1]) == Some(i))) by {
            if is_listed(hosts, vms, i, n) {
                let k = choose|k: int|
                    0 <= k < n && #[trigger] host_of(hosts, vms[k]) == Some(i);
                assert(k < n - 1 || k == n - 1);
            }
            if is_listed(hosts, vms, i, n - 1) {
                let k = choose|k: int|
                    0 <= k < n - 1 && #[trigger] host_of(hosts, vms[k]) == Some(i);
                assert(host_of(hosts, vms[k]) == Some(i));
            }
        }
        assert forall|i: int| 0 <= i < hosts.len() implies #[trigger] now[i] == (if host_of(
            hosts,
            vms[n - 1],
        ) == Some(i) {
            adopted(so_far[i], vms[n - 1], parent)
        } else {
            so_far[i]
        }) by {}
    }
}

/// The positions of those of the first `n` hosts that are machines of the list, or
/// of those that are not.
spec fn picked_at(hosts: Seq<HostView>, vms: Seq<VmInfo>, listed: bool, n: int) -> Seq<int>
    decreases n,
{
    if n <= 0 {
        seq![]
    } else if is_listed(hosts, vms, n - 1, vms.len() as int) == listed {
        picked_at(hosts, vms, listed, n - 1).push(n - 1)
    } else {
        picked_at(hosts, vms, listed, n - 1)
    }
}

/// The hosts that are picked stand at these positions, which ascend.
proof fn picked_from(
    hosts: Seq<HostView>,
    vms: Seq<VmInfo>,
    parent: Seq<char>,
    listed: bool,
    n: int,
)
    requires
        0 <= n <= hosts.len(),
    ensures
        ({
            let at = picked_at(hosts, vms, listed, n);
            let hosts_picked = picked(hosts, vms, parent, listed, n);
            &&& hosts_picked.len() == at.len()
            &&& forall|j: int|
                0 <= j < at.len() ==> 0 <= #[trigger] at[j] < n && is_listed(
                    hosts,
                    vms,
                    at[j],
                    vms.len() as int,
                ) == listed && hosts_picked[j] == adopting(
                    hosts,
                    vms,
                    parent,
                    vms.len() as int,
                )[at[j]]
            &&& forall|j: int, k: int|
                0 <= j < k < at.len() ==> #[trigger] at[j] < #[trigger] at[k]
            &&& picked_at(hosts, vms, true, n).len() + picked_at(hosts, vms, false, n).len() == n
        }),
    decreases n,
{
    if n > 0 {
        picked_from(hosts, vms, parent, listed, n - 1);
    }
}

/// Every host is picked from its position.
proof fn position_is_picked(hosts: Seq<HostView>, vms: Seq<VmInfo>, n: int, i: int) -> (j: int)
    requires
        0 <= i < n <= hosts.len(),
    ensures
        ({
            let at = picked_at(hosts, vms, is_listed(hosts, vms, i, vms.len() as int), n);
            0 <= j < at.len() && at[j] == i
        }),
    decreases n,
{
    let listed = is_listed(hosts, vms, i, vms.len() as int);
    if i < n - 1 {
        position_is_picked(hosts, vms, n - 1, i)
    } else {
        picked_at(hosts, vms, listed, n - 1).len() as int
    }
}

/// The positions of those of the first `n` machines that are new.
spec fn new_at(hosts: Seq<HostView>, vms: Seq<VmInfo>, n: int) -> Seq<int>
    decreases n,
{
    if n <= 0 {
        seq![]
    } else if is_new(hosts, vms, n - 1) {
        new_at(hosts, vms, n - 1).push(n - 1)
    } else {
        new_at(hosts, vms, n - 1)
    }
}

/// The new hosts are those of the machines at these positions, which ascend.
proof fn newcomers_from(
    hosts: Seq<HostView>,
    vms: Seq<VmInfo>,
    parent: Seq<char>,
    next_id: u64,
    n: int,
)
    requires
        0 <= n <= vms.len(),
    ensures
        ({
            let at = new_at(hosts, vms, n);
            let new = newcomers(hosts, vms, parent, next_id, n);
            &&& new.len() == at.len()
            &&& forall|j: int|
                0 <= j < at.len() ==> 0 <= #[trigger] at[j] < n && is_new(hosts, vms, at[j])
                    && new[j] == vm_host(id_after(next_id, j as nat), vms[at[j]], parent)
            &&& forall|j: int, k: int|
                0 <= j < k < at.len() ==> #[trigger] at[j] < #[trigger] at[k]
        }),
    decreases n,
{
    if n > 0 {
        newcomers_from(hosts, vms, parent, next_id, n - 1);
    }
}

/// Every new machine has its new host.
proof fn new_machine_has_a_host(hosts: Seq<HostView>, vms: Seq<VmInfo>, n: int, k: int) -> (j: int)
    requires
        0 <= k < n <= vms.len(),
        is_new(hosts, vms, k),
    ensures
        0 <= j < new_at(hosts, vms, n).len(),
        new_at(hosts, vms, n)[j] == k,
    decreases n,
{
    if k < n - 1 {
        new_machine_has_a_host(hosts, vms, n - 1, k)
    } else {
        new_at(hosts, vms, n - 1).len() as int
    }
}

proof fn place_in_range(hosts: Seq<HostView>, parent: Seq<char>)
    ensures
        0 <= place_for(hosts, parent) <= hosts.len(),
        match first_called(hosts, parent, hosts.len() as int) {
            Some(p) => p < place_for(hosts, parent) && forall|q: int|
                p < q < place_for(hosts, parent) ==> (#[trigger] hosts[q]).parent_host == Some(
                    parent,
                ),
            None => place_for(hosts, parent) == hosts.len(),
        },
{
    first_called_in_range(hosts, parent, hosts.len() as int);
    if let Some(p) = first_called(hosts, parent, hosts.len() as int) {
        past_children_are_children(hosts, parent, p + 1);
    }
}

/// Where the parts of the merged hosts stand.
proof fn merged_parts(
    hosts: Seq<HostView>,
    vms: Seq<VmInfo>,
    parent: Seq<char>,
    next_id: u64,
)
    ensures
        ({
            let all = merged(hosts, vms, parent, next_id);
            let rest = staying(hosts, vms, parent);
            let moved = moving(hosts, vms, parent);
            let new = newcomers(hosts, vms, parent, next_id, vms.len() as int);
            let at = place_for(rest, parent);
            &&& 0 <= at <= rest.len()
            &&& all.len() == rest.len() + moved.len() + new.len()
            &&& forall|i: int| 0 <= i < at ==> all[i] == #[trigger] rest[i]
            &&& forall|i: int|
                at <= i < rest.len() ==> all[i + moved.len() + new.len()] == #[trigger] rest[i]
            &&& forall|i: int| 0 <= i < moved.len() ==> all[at + i] == #[trigger] moved[i]
            &&& forall|i: int|
                0 <= i < new.len() ==> all[at + moved.len() + i] == #[trigger] new[i]
        }),
{
    place_in_range(staying(hosts, vms, parent), parent);
}

/// Where the merged hosts that come of the list of machines stand.
spec fn block(
    hosts: Seq<HostView>,
    vms: Seq<VmInfo>,
    parent: Seq<char>,
    next_id: u64,
) -> (int, int) {
    let at = place_for(staying(hosts, vms, parent), parent);
    (
        at,
        at + moving(hosts, vms, parent).len() + newcomers(
            hosts,
            vms,
            parent,
            next_id,
            vms.len() as int,
        ).len(),
    )
}

/// Where the merged host at position `q` comes from: a position among the hosts
/// there were, or behind them one among the new ones.
spec fn origin(
    hosts: Seq<HostView>,
    vms: Seq<VmInfo>,
    parent: Seq<char>,
    next_id: u64,
    q: int,
) -> int {
    let n = hosts.len() as int;
    let (from, to) = block(hosts, vms, parent, next_id);
    let moved = moving(hosts, vms, parent).len();
    if q < from {
        picked_at(hosts, vms, false, n)[q]
    } else if q < from + moved {
        picked_at(hosts, vms, true, n)[q - from]
    } else if q < to {
        n + q - from - moved
    } else {
        picked_at(hosts, vms, false, n)[q - (to - from)]
    }
}

/// What a merged host is, by where it comes from.
proof fn origin_is(
    hosts: Seq<HostView>,
    vms: Seq<VmInfo>,
    parent: Seq<char>,
    next_id: u64,
    q: int,
)
    requires
        0 <= q < merged(hosts, vms, parent, next_id).len(),
    ensures
        ({
            let all = merged(hosts, vms, parent, next_id);
            let new = newcomers(hosts, vms, parent, next_id, vms.len() as int);
            let o = origin(hosts, vms, parent, next_id, q);
            let (from, to) = block(hosts, vms, parent, next_id);
            &&& 0 <= from <= to <= all.len()
            &&& 0 <= o < hosts.len() + new.len()
            &&& o < hosts.len() ==> all[q] == adopting(hosts, vms, parent, vms.len() as int)[o]
                && (is_listed(hosts, vms, o, vms.len() as int) <==> from <= q < to)
            &&& o >= hosts.len() ==> all[q] == new[o - hosts.len()] && from <= q < to
        }),
{
    let n = hosts.len() as int;
    merged_parts(hosts, vms, parent, next_id);
    picked_from(hosts, vms, parent, true, n);
    picked_from(hosts, vms, parent, false, n);
    let (from, to) = block(hosts, vms, parent, next_id);
    let rest = staying(hosts, vms, parent);
    let moved = moving(hosts, vms, parent);
    let new = newcomers(hosts, vms, parent, next_id, vms.len() as int);
    let all = merged(hosts, vms, parent, next_id);
    if q < from {
        assert(all[q] == rest[q]);
    } else if q < from + moved.len() {
        assert(all[from + (q - from)] == moved[q - from]);
    } else if q < to {
        let j = q - from - moved.len();
        assert(all[from + moved.len() + j] == new[j]);
    } else {
        let j = q - (to - from);
        assert(all[j + moved.len() + new.len()] == rest[j]);
    }
}

/// No two merged hosts come from the same place.
proof fn origins_differ(
    hosts: Seq<HostView>,
    vms: Seq<VmInfo>,
    parent: Seq<char>,
    next_id: u64,
    q: int,
    r: int,
)
    requires
        0 <= q < r < merged(hosts, vms, parent, next_id).len(),
    ensures
        origin(hosts, vms, parent, next_id, q) != origin(hosts, vms, parent, next_id, r),
{
    let n = hosts.len() as int;
    merged_parts(hosts, vms, parent, next_id);
    picked_from(hosts, vms, parent, true, n);
    picked_from(hosts, vms, parent, false, n);
    origin_is(hosts, vms, parent, next_id, q);
    origin_is(hosts, vms, parent, next_id, r);
}

// ── Laws ─────────────────────────────────────────────────────────────────

/// A merge takes no host away: it adds the new machines to the hosts there were.
pub proof fn merging_only_adds_new_machines(
    hosts: Seq<HostView>,
    vms: Seq<VmInfo>,
    parent: Seq<char>,
    next_id: u64,
)
    requires
        can_merge(hosts, vms),
    ensures
        merged(hosts, vms, parent, next_id).len() == hosts.len() + newcomers(
            hosts,
            vms,
            parent,
            next_id,
            vms.len() as int,
        ).len(),
{
    merged_parts(hosts, vms, parent, next_id);
    picked_from(hosts, vms, parent, true, hosts.len() as int);
    picked_from(hosts, vms, parent, false, hosts.len() as int);
}

/// A host that is no machine of the list is there after a merge as it was before.
pub proof fn merging_leaves_other_hosts_alone(
    hosts: Seq<HostView>,
    vms: Seq<VmInfo>,
    parent: Seq<char>,
    next_id: u64,
    i: int,
)
    requires
        can_merge(hosts, vms),
        0 <= i < hosts.len(),
        !is_listed(hosts, vms, i, vms.len() as int),
    ensures
        merged(hosts, vms, parent, next_id).contains(hosts[i]),
{
    adopting_marks(hosts, vms, parent, vms.len() as int);
    picked_from(hosts, vms, parent, false, hosts.len() as int);
    merged_parts(hosts, vms, parent, next_id);
    let all = merged(hosts, vms, parent, next_id);
    let rest = staying(hosts, vms, parent);
    let moved = moving(hosts, vms, parent);
    let new = newcomers(hosts, vms, parent, next_id, vms.len() as int);
    let j = position_is_picked(hosts, vms, hosts.len() as int, i);
    assert(rest[j] == hosts[i]);
    if j < place_for(rest, parent) {
        assert(all[j] == hosts[i]);
    } else {
        assert(all[j + moved.len() + new.len()] == hosts[i]);
    }
}

/// After a merge each machine of the list is a host under its parent.
pub proof fn every_machine_becomes_a_child(
    hosts: Seq<HostView>,
    vms: Seq<VmInfo>,
    parent: Seq<char>,
    next_id: u64,
    k: int,
)
    requires
        can_merge(hosts, vms),
        0 <= k < vms.len(),
    ensures
        exists|j: int|
            0 <= j < merged(hosts, vms, parent, next_id).len() && same_ignoring_case(
                (#[trigger] merged(hosts, vms, parent, next_id)[j]).name,
                vms[k].name@,
            ) && merged(hosts, vms, parent, next_id)[j].is_child_vm && merged(
                hosts,
                vms,
                parent,
                next_id,
            )[j].parent_host == Some(parent),
    decreases k,
{
    let all = merged(hosts, vms, parent, next_id);
    let rest = staying(hosts, vms, parent);
    let moved = moving(hosts, vms, parent);
    let new = newcomers(hosts, vms, parent, next_id, vms.len() as int);
    let at = place_for(rest, parent);
    merged_parts(hosts, vms, parent, next_id);
    match host_of(hosts, vms[k]) {
        Some(i) => {
            first_called_in_range(hosts, vms[k].name@, hosts.len() as int);
            adopting_marks(hosts, vms, parent, vms.len() as int);
            picked_from(hosts, vms, parent, true, hosts.len() as int);
            assert(is_listed(hosts, vms, i, vms.len() as int));
            let j = position_is_picked(hosts, vms, hosts.len() as int, i);
            assert(all[at + j] == moved[j]);
        },
        None => {
            if is_new(hosts, vms, k) {
                newcomers_from(hosts, vms, parent, next_id, vms.len() as int);
                let j = new_machine_has_a_host(hosts, vms, vms.len() as int, k);
                assert(all[at + moved.len() + j] == new[j]);
            } else {
                let i = choose|i: int|
                    0 <= i < k && same_ignoring_case(#[trigger] vms[i].name@, vms[k].name@);
                every_machine_becomes_a_child(hosts, vms, parent, next_id, i);
            }
        },
    }
}

/// The machines of the list stand directly behind their parent, or behind what
/// was listed under it before.
pub proof fn machines_stand_behind_their_parent(
    hosts: Seq<HostView>,
    vms: Seq<VmInfo>,
    parent: Seq<char>,
    next_id: u64,
)
    requires
        can_merge(hosts, vms),
        first_called(
            staying(hosts, vms, parent),
            parent,
            staying(hosts, vms, parent).len() as int,
        ) is Some,
    ensures
        ({
            let all = merged(hosts, vms, parent, next_id);
            let rest = staying(hosts, vms, parent);
            let p = first_called(rest, parent, rest.len() as int)->0;
            let end = place_for(rest, parent) + moving(hosts, vms, parent).len() + newcomers(
                hosts,
                vms,
                parent,
                next_id,
                vms.len() as int,
            ).len();
            &&& 0 <= p < end <= all.len()
            &&& same_ignoring_case(all[p].name, parent)
            &&& forall|q: int| p < q < end ==> (#[trigger] all[q]).parent_host == Some(parent)
        }),
{
    let all = merged(hosts, vms, parent, next_id);
    let rest = staying(hosts, vms, parent);
    let moved = moving(hosts, vms, parent);
    let new = newcomers(hosts, vms, parent, next_id, vms.len() as int);
    let at = place_for(rest, parent);
    let p = first_called(rest, parent, rest.len() as int)->0;
    merged_parts(hosts, vms, parent, next_id);
    place_in_range(rest, parent);
    first_called_in_range(rest, parent, rest.len() as int);
    adopting_marks(hosts, vms, parent, vms.len() as int);
    newcomers_from(hosts, vms, parent, next_id, vms.len() as int);
    assert(all[p] == rest[p]);
    assert forall|q: int| p < q < at + moved.len() + new.len() implies (
    #[trigger] all[q]).parent_host == Some(parent) by {
        if q < at {
            assert(all[q] == rest[q]);
        } else {
            origin_is(hosts, vms, parent, next_id, q);
            let o = origin(hosts, vms, parent, next_id, q);
            if o >= hosts.len() {
                assert(new_at(hosts, vms, vms.len() as int)[o - hosts.len()] >= 0);
            }
        }
    }
}

/// Merging the same list once more adds no host.
pub proof fn merging_again_adds_nothing(
    hosts: Seq<HostView>,
    vms: Seq<VmInfo>,
    parent: Seq<char>,
    next_id: u64,
    later_id: u64,
)
    requires
        can_merge(hosts, vms),
    ensures
        newcomers(
            merged(hosts, vms, parent, next_id),
            vms,
            parent,
            later_id,
            vms.len() as int,
        ).len() == 0,
{
    let all = merged(hosts, vms, parent, next_id);
    assert forall|k: int| 0 <= k < vms.len() implies !#[trigger] is_new(all, vms, k) by {
        every_machine_becomes_a_child(hosts, vms, parent, next_id, k);
        first_called_in_range(all, vms[k].name@, all.len() as int);
    }
    no_newcomers(all, vms, parent, later_id, vms.len() as int);
}

proof fn no_newcomers(
    hosts: Seq<HostView>,
    vms: Seq<VmInfo>,
    parent: Seq<char>,
    next_id: u64,
    n: int,
)
    requires
        forall|k: int| 0 <= k < n ==> !#[trigger] is_new(hosts, vms, k),
    ensures
        newcomers(hosts, vms, parent, next_id, n).len() == 0,
    decreases n,
{
    if n > 0 {
        no_newcomers(hosts, vms, parent, next_id, n - 1);
    }
}

/// The new hosts get the next ids, one after the other.
pub proof fn new_machines_get_the_next_ids(
    hosts: Seq<HostView>,
    vms: Seq<VmInfo>,
    parent: Seq<char>,
    next_id: u64,
    j: int,
)
    requires
        0 <= j < newcomers(hosts, vms, parent, next_id, vms.len() as int).len(),
    ensures
        newcomers(hosts, vms, parent, next_id, vms.len() as int)[j].id == id_after(
            next_id,
            j as nat,
        ),
{
    newcomers_from(hosts, vms, parent, next_id, vms.len() as int);
    assert(new_at(hosts, vms, vms.len() as int)[j] >= 0);
}

/// The ids of merged hosts are distinct if those of the hosts were and lie below
/// the next one; each is the id of a host there was, or a new one.
pub proof fn ids_stay_distinct_after_a_merge(
    hosts: Seq<HostView>,
    vms: Seq<VmInfo>,
    parent: Seq<char>,
    next_id: u64,
)
    requires
        can_merge(hosts, vms),
        ids_within(hosts, 0, next_id as int),
        next_id + newcomers(hosts, vms, parent, next_id, vms.len() as int).len() <= u64::MAX + 1,
    ensures
        ids_within(
            merged(hosts, vms, parent, next_id),
            0,
            next_id + newcomers(hosts, vms, parent, next_id, vms.len() as int).len(),
        ),
        forall|q: int|
            0 <= q < merged(hosts, vms, parent, next_id).len() ==> (#[trigger] merged(
                hosts,
                vms,
                parent,
                next_id,
            )[q]).id >= next_id || exists|i: int|
                0 <= i < hosts.len() && (#[trigger] hosts[i]).id == merged(
                    hosts,
                    vms,
                    parent,
                    next_id,
                )[q].id,
{
    let all = merged(hosts, vms, parent, next_id);
    let n = hosts.len() as int;
    let new = newcomers(hosts, vms, parent, next_id, vms.len() as int);
    assert forall|q: int| 0 <= q < all.len() implies ({
        let o = #[trigger] origin(hosts, vms, parent, next_id, q);
        &&& 0 <= o < n + new.len()
        &&& all[q].id == if o < n {
            hosts[o].id as int
        } else {
            next_id + (o - n)
        }
    }) by {
        let o = origin(hosts, vms, parent, next_id, q);
        origin_is(hosts, vms, parent, next_id, q);
        adopting_marks(hosts, vms, parent, vms.len() as int);
        if o >= n {
            new_machines_get_the_next_ids(hosts, vms, parent, next_id, o - n);
            ids_count_up(next_id, (o - n) as nat);
        }
    }
    assert forall|q: int| 0 <= q < all.len() implies ((#[trigger] all[q]).id >= next_id || exists|
        i: int,
    |
        0 <= i < n && (#[trigger] hosts[i]).id == all[q].id) && all[q].id < next_id
        + new.len() by {
        let o = origin(hosts, vms, parent, next_id, q);
        if o < n {
            assert(hosts[o].id == all[q].id);
        }
    }
    assert forall|q: int, r: int| 0 <= q < r < all.len() implies (#[trigger] all[q]).id != (
    #[trigger] all[r]).id by {
        let o = origin(hosts, vms, parent, next_id, q);
        let p = origin(hosts, vms, parent, next_id, r);
        origins_differ(hosts, vms, parent, next_id, q, r);
        if o < n && p < n {
            if o < p {
                assert(hosts[o].id != hosts[p].id);
            } else {
                assert(hosts[p].id != hosts[o].id);
            }
        }
    }
}

/// `after` is `before` with machines merged into the group at position `g`, their
/// ids taken from the monitor's own source.
pub open spec fn merged_into_group(
    before: App,
    after: App,
    g: int,
    vms: Seq<VmInfo>,
    parent: Seq<char>,
) -> bool {
    let hosts = host_views(before.groups@[g].hosts@);
    let next_id = before.host_ids.next;
    &&& 0 <= g < before.groups@.len()
    &&& after.groups@.len() == before.groups@.len()
    &&& forall|k: int|
        0 <= k < before.groups@.len() && k != g ==> #[trigger] after.groups@[k]
            == before.groups@[k]
    &&& host_views(after.groups@[g].hosts@) == merged(hosts, vms, parent, next_id)
    &&& after.host_ids.next == id_after(
        next_id,
        newcomers(hosts, vms, parent, next_id, vms.len() as int).len(),
    )
}

/// Merging machines into a group, with ids from the monitor's own source, leaves
/// all ids of the monitor unique.
pub proof fn merging_keeps_ids_unique(
    before: App,
    after: App,
    g: int,
    vms: Seq<VmInfo>,
    parent: Seq<char>,
)
    requires
        before.has_unique_ids(),
        merged_into_group(before, after, g, vms, parent),
        can_merge(host_views(before.groups@[g].hosts@), vms),
        before.host_ids.next + newcomers(
            host_views(before.groups@[g].hosts@),
            vms,
            parent,
            before.host_ids.next,
            vms.len() as int,
        ).len() <= u64::MAX,
    ensures
        after.has_unique_ids(),
{
    let hosts = host_views(before.groups@[g].hosts@);
    let next_id = before.host_ids.next;
    let all = merged(hosts, vms, parent, next_id);
    let new = newcomers(hosts, vms, parent, next_id, vms.len() as int);
    assert forall|i: int| 0 <= i < hosts.len() implies #[trigger] hosts[i]
        == before.groups@[g].hosts@[i]@ by {}
    assert forall|i: int, j: int| 0 <= i < j < hosts.len() implies (#[trigger] hosts[i]).id != (
    #[trigger] hosts[j]).id by {
        assert(before.groups@[g].hosts@[i].id == hosts[i].id);
        assert(before.groups@[g].hosts@[j].id == hosts[j].id);
    }
    assert forall|i: int| 0 <= i < hosts.len() implies 0 <= (#[trigger] hosts[i]).id < next_id by {
        assert(before.groups@[g].hosts@[i].id == hosts[i].id);
    }
    ids_stay_distinct_after_a_merge(hosts, vms, parent, next_id);
    ids_count_up(next_id, new.len());
    assert forall|h: int| 0 <= h < after.groups@[g].hosts@.len() implies (
    #[trigger] after.groups@[g].hosts@[h])@ == all[h] by {
        assert(host_views(after.groups@[g].hosts@)[h] == after.groups@[g].hosts@[h]@);
    }
    assert(after.groups@[g].hosts@.len() == all.len()) by {
        assert(host_views(after.groups@[g].hosts@).len() == after.groups@[g].hosts@.len());
    }
    assert forall|k: int, h: int|
        0 <= k < after.groups@.len() && 0 <= h < after.groups@[k].hosts@.len() implies (
    #[trigger] after.groups@[k].hosts@[h]).id < after.host_ids.next by {
        if k == g {
            assert(after.groups@[g].hosts@[h]@ == all[h]);
        } else {
            assert(after.groups@[k] == before.groups@[k]);
            assert(before.groups@[k].hosts@[h].id < next_id);
        }
    }
    assert forall|k: int, h: int, l: int, j: int|
        0 <= k < after.groups@.len() && 0 <= h < after.groups@[k].hosts@.len() && 0 <= l
            < after.groups@.len() && 0 <= j < after.groups@[l].hosts@.len() && (
        #[trigger] after.groups@[k].hosts@[h]).id == (
        #[trigger] after.groups@[l].hosts@[j]).id implies k == l && h == j by {
        if k == g && l == g {
            assert(after.groups@[g].hosts@[h]@ == all[h]);
            assert(after.groups@[g].hosts@[j]@ == all[j]);
            if h < j {
                assert(all[h].id != all[j].id);
            } else if j < h {
                assert(all[j].id != all[h].id);
            }
        } else if k != g && l != g {
            assert(after.groups@[k] == before.groups@[k] && after.groups@[l] == before.groups@[l]);
            assert(before.groups@[k].hosts@[h].id == before.groups@[l].hosts@[j].id);
        } else if k == g {
            old_id_stays_in_its_group(before, after, g, vms, parent, h, l, j);
        } else {
            old_id_stays_in_its_group(before, after, g, vms, parent, j, k, h);
        }
    }
}

/// No merged host has the id of a host of another group.
proof fn old_id_stays_in_its_group(
    before: App,
    after: App,
    g: int,
    vms: Seq<VmInfo>,
    parent: Seq<char>,
    h: int,
    k: int,
    j: int,
)
    requires
        before.has_unique_ids(),
        merged_into_group(before, after, g, vms, parent),
        0 <= h < after.groups@[g].hosts@.len(),
        0 <= k < after.groups@.len(),
        k != g,
        0 <= j < after.groups@[k].hosts@.len(),
        ({
            let hosts = host_views(before.groups@[g].hosts@);
            let all = merged(hosts, vms, parent, before.host_ids.next);
            all[h].id >= before.host_ids.next || exists|i: int|
                0 <= i < hosts.len() && (#[trigger] hosts[i]).id == all[h].id
        }),
    ensures
        after.groups@[g].hosts@[h].id != after.groups@[k].hosts@[j].id,
{
    let hosts = host_views(before.groups@[g].hosts@);
    let all = merged(hosts, vms, parent, before.host_ids.next);
    assert(host_views(after.groups@[g].hosts@)[h] == after.groups@[g].hosts@[h]@);
    assert(after.groups@[k] == before.groups@[k]);
    assert(before.groups@[k].hosts@[j].id < before.host_ids.next);
    if all[h].id < before.host_ids.next {
        let i = choose|i: int| 0 <= i < hosts.len() && (#[trigger] hosts[i]).id == all[h].id;
        assert(hosts[i] == before.groups@[g].hosts@[i]@);
        assert(before.groups@[g].hosts@[i].id != before.groups@[k].hosts@[j].id);
    }
}

// ── Merging twice ────────────────────────────────────────────────────────

/// No two machines have the same name, up to case.
pub open spec fn machines_differ(vms: Seq<VmInfo>) -> bool {
    forall|i: int, j: int|
        0 <= i < j < vms.len() ==> !same_ignoring_case(
            (#[trigger] vms[i]).name@,
            (#[trigger] vms[j]).name@,
        )
}

/// One of the machines has the name of the host.
spec fn is_named(h: HostView, vms: Seq<VmInfo>) -> bool {
    exists|k: int| 0 <= k < vms.len() && same_ignoring_case(h.name, #[trigger] vms[k].name@)
}

/// Among hosts with different names, a machine is the host that has its name.
proof fn found_by_name(hosts: Seq<HostView>, vm: VmInfo, i: int)
    requires
        names_differ(hosts),
        0 <= i < hosts.len(),
    ensures
        host_of(hosts, vm) == Some(i) <==> same_ignoring_case(hosts[i].name, vm.name@),
{
    first_called_in_range(hosts, vm.name@, hosts.len() as int);
    if same_ignoring_case(hosts[i].name, vm.name@) {
        let j = host_of(hosts, vm)->0;
        assert(host_of(hosts, vm) is Some);
        if j < i {
            assert(!same_ignoring_case(hosts[j].name, hosts[i].name));
        } else if i < j {
            assert(!same_ignoring_case(hosts[i].name, hosts[j].name));
        }
    }
}

proof fn listed_iff_named(hosts: Seq<HostView>, vms: Seq<VmInfo>, i: int)
    requires
        names_differ(hosts),
        0 <= i < hosts.len(),
    ensures
        is_listed(hosts, vms, i, vms.len() as int) <==> is_named(hosts[i], vms),
{
    if is_listed(hosts, vms, i, vms.len() as int) {
        let k = choose|k: int|
            0 <= k < vms.len() && #[trigger] host_of(hosts, vms[k]) == Some(i);
        found_by_name(hosts, vms[k], i);
        assert(same_ignoring_case(hosts[i].name, vms[k].name@));
    }
    if is_named(hosts[i], vms) {
        let k = choose|k: int|
            0 <= k < vms.len() && same_ignoring_case(hosts[i].name, #[trigger] vms[k].name@);
        found_by_name(hosts, vms[k], i);
        assert(host_of(hosts, vms[k]) == Some(i));
    }
}

/// A host is adopted as the one machine that has its name.
proof fn adopted_once(
    hosts: Seq<HostView>,
    vms: Seq<VmInfo>,
    parent: Seq<char>,
    n: int,
    i: int,
    k: int,
)
    requires
        machines_differ(vms),
        0 <= k < vms.len(),
        n <= vms.len(),
        0 <= i < hosts.len(),
        host_of(hosts, vms[k]) == Some(i),
    ensures
        adopting(hosts, vms, parent, n)[i] == if k < n {
            adopted(hosts[i], vms[k], parent)
        } else {
            hosts[i]
        },
    decreases n,
{
    if n > 0 {
        adopted_once(hosts, vms, parent, n - 1, i, k);
        adopting_marks(hosts, vms, parent, n - 1);
        first_called_in_range(hosts, vms[k].name@, hosts.len() as int);
        first_called_in_range(hosts, vms[n - 1].name@, hosts.len() as int);
        if host_of(hosts, vms[n - 1]) == Some(i) && k != n - 1 {
            assert(same_ignoring_case(vms[k].name@, vms[n - 1].name@));
            if k < n - 1 {
                assert(!same_ignoring_case(vms[k].name@, vms[n - 1].name@));
            } else {
                assert(!same_ignoring_case(vms[n - 1].name@, vms[k].name@));
            }
        }
    }
}

/// What a merged host is called, and what a second adoption makes of it: nothing
/// else.
proof fn merged_host_is_settled(
    hosts: Seq<HostView>,
    vms: Seq<VmInfo>,
    parent: Seq<char>,
    next_id: u64,
    q: int,
)
    requires
        names_differ(hosts),
        machines_differ(vms),
        0 <= q < merged(hosts, vms, parent, next_id).len(),
    ensures
        ({
            let h = merged(hosts, vms, parent, next_id)[q];
            let (from, to) = block(hosts, vms, parent, next_id);
            &&& is_named(h, vms) <==> from <= q < to
            &&& forall|k: int|
                0 <= k < vms.len() && same_ignoring_case(h.name, #[trigger] vms[k].name@)
                    ==> adopted(h, vms[k], parent) == h
        }),
{
    let h = merged(hosts, vms, parent, next_id)[q];
    let n = vms.len() as int;
    let o = origin(hosts, vms, parent, next_id, q);
    origin_is(hosts, vms, parent, next_id, q);
    adopting_marks(hosts, vms, parent, n);
    if o < hosts.len() {
        assert(h.name == hosts[o].name) by {
            assert(adopting(hosts, vms, parent, n)[o].name == hosts[o].name);
        }
        listed_iff_named(hosts, vms, o);
        if is_named(hosts[o], vms) {
            let k = choose|k: int|
                0 <= k < n && same_ignoring_case(hosts[o].name, #[trigger] vms[k].name@);
            assert(same_ignoring_case(h.name, vms[k].name@));
        }
        if is_named(h, vms) {
            let k = choose|k: int|
                0 <= k < n && same_ignoring_case(h.name, #[trigger] vms[k].name@);
            assert(same_ignoring_case(hosts[o].name, vms[k].name@));
        }
        assert forall|k: int|
            0 <= k < n && same_ignoring_case(h.name, #[trigger] vms[k].name@) implies adopted(
            h,
            vms[k],
            parent,
        ) == h by {
            found_by_name(hosts, vms[k], o);
            adopted_once(hosts, vms, parent, n, o, k);
        }
    } else {
        newcomers_from(hosts, vms, parent, next_id, n);
        let m = new_at(hosts, vms, n)[o - hosts.len()];
        assert(same_ignoring_case(h.name, vms[m].name@));
        assert forall|k: int|
            0 <= k < n && same_ignoring_case(h.name, #[trigger] vms[k].name@) implies adopted(
            h,
            vms[k],
            parent,
        ) == h by {
            if k < m {
                assert(!same_ignoring_case(vms[k].name@, vms[m].name@));
            } else if m < k {
                assert(!same_ignoring_case(vms[m].name@, vms[k].name@));
            }
        }
    }
}

/// Merged hosts have different names.
proof fn merged_names_differ(
    hosts: Seq<HostView>,
    vms: Seq<VmInfo>,
    parent: Seq<char>,
    next_id: u64,
)
    requires
        names_differ(hosts),
        machines_differ(vms),
    ensures
        names_differ(merged(hosts, vms, parent, next_id)),
{
    let all = merged(hosts, vms, parent, next_id);
    let n = hosts.len() as int;
    let m = vms.len() as int;
    newcomers_from(hosts, vms, parent, next_id, m);
    adopting_marks(hosts, vms, parent, m);
    let at = new_at(hosts, vms, m);
    assert forall|q: int, r: int| 0 <= q < r < all.len() implies !same_ignoring_case(
        (#[trigger] all[q]).name,
        (#[trigger] all[r]).name,
    ) by {
        let o = origin(hosts, vms, parent, next_id, q);
        let p = origin(hosts, vms, parent, next_id, r);
        origin_is(hosts, vms, parent, next_id, q);
        origin_is(hosts, vms, parent, next_id, r);
        origins_differ(hosts, vms, parent, next_id, q, r);
        if o < n && p < n {
            assert(adopting(hosts, vms, parent, m)[o].name == hosts[o].name);
            assert(adopting(hosts, vms, parent, m)[p].name == hosts[p].name);
            if o < p {
                assert(!same_ignoring_case(hosts[o].name, hosts[p].name));
            } else {
                assert(!same_ignoring_case(hosts[p].name, hosts[o].name));
            }
        } else if o >= n && p >= n {
            let k = at[o - n];
            let j = at[p - n];
            if o < p {
                assert(k < j);
                assert(!same_ignoring_case(vms[k].name@, vms[j].name@));
            } else {
                assert(j < k);
                assert(!same_ignoring_case(vms[j].name@, vms[k].name@));
            }
        } else if o < n {
            let j = at[p - n];
            assert(adopting(hosts, vms, parent, m)[o].name == hosts[o].name);
            first_called_in_range(hosts, vms[j].name@, n);
            assert(!same_ignoring_case(hosts[o].name, vms[j].name@));
        } else {
            let k = at[o - n];
            assert(adopting(hosts, vms, parent, m)[p].name == hosts[p].name);
            first_called_in_range(hosts, vms[k].name@, n);
            assert(!same_ignoring_case(hosts[p].name, vms[k].name@));
        }
    }
}

/// Hosts that are as their machines were reported stay as they are.
proof fn nothing_to_adopt(hosts: Seq<HostView>, vms: Seq<VmInfo>, parent: Seq<char>, n: int)
    requires
        0 <= n <= vms.len(),
        forall|q: int, k: int|
            0 <= q < hosts.len() && 0 <= k < vms.len() && same_ignoring_case(
                (#[trigger] hosts[q]).name,
                (#[trigger] vms[k]).name@,
            ) ==> adopted(hosts[q], vms[k], parent) == hosts[q],
    ensures
        adopting(hosts, vms, parent, n) == hosts,
    decreases n,
{
    if n > 0 {
        nothing_to_adopt(hosts, vms, parent, n - 1);
        first_called_in_range(hosts, vms[n - 1].name@, hosts.len() as int);
        if let Some(i) = host_of(hosts, vms[n - 1]) {
            assert(adopted(hosts[i], vms[n - 1], parent) == hosts[i]);
            assert(hosts.update(i, hosts[i]) =~= hosts);
        }
    }
}

/// Where the listed hosts stand in one block and adoption changes nothing, the
/// block is what is picked.
proof fn block_is_picked(
    hosts: Seq<HostView>,
    vms: Seq<VmInfo>,
    parent: Seq<char>,
    from: int,
    to: int,
    n: int,
)
    requires
        0 <= from <= to <= hosts.len(),
        0 <= n <= hosts.len(),
        adopting(hosts, vms, parent, vms.len() as int) == hosts,
        forall|q: int|
            0 <= q < hosts.len() ==> (#[trigger] is_listed(hosts, vms, q, vms.len() as int)
                <==> from <= q < to),
    ensures
        picked(hosts, vms, parent, true, n) == if n <= from {
            seq![]
        } else if n <= to {
            hosts.subrange(from, n)
        } else {
            hosts.subrange(from, to)
        },
        picked(hosts, vms, parent, false, n) == if n <= from {
            hosts.take(n)
        } else if n <= to {
            hosts.take(from)
        } else {
            hosts.take(from) + hosts.subrange(to, n)
        },
    decreases n,
{
    if n > 0 {
        block_is_picked(hosts, vms, parent, from, to, n - 1);
        assert(is_listed(hosts, vms, n - 1, vms.len() as int) <==> from <= n - 1 < to);
    }
    assert(picked(hosts, vms, parent, true, n) =~= if n <= from {
        seq![]
    } else if n <= to {
        hosts.subrange(from, n)
    } else {
        hosts.subrange(from, to)
    });
    assert(picked(hosts, vms, parent, false, n) =~= if n <= from {
        hosts.take(n)
    } else if n <= to {
        hosts.take(from)
    } else {
        hosts.take(from) + hosts.subrange(to, n)
    });
}

/// Merging the same list once more changes nothing, as long as no two hosts and no
/// two machines have the same name.
pub proof fn merging_again_changes_nothing(
    hosts: Seq<HostView>,
    vms: Seq<VmInfo>,
    parent: Seq<char>,
    next_id: u64,
    later_id: u64,
)
    requires
        can_merge(hosts, vms),
        names_differ(hosts),
        machines_differ(vms),
    ensures
        can_merge(merged(hosts, vms, parent, next_id), vms),
        merged(merged(hosts, vms, parent, next_id), vms, parent, later_id) == merged(
            hosts,
            vms,
            parent,
            next_id,
        ),
{
    let all = merged(hosts, vms, parent, next_id);
    let n = vms.len() as int;
    let rest = staying(hosts, vms, parent);
    let (from, to) = block(hosts, vms, parent, next_id);
    merged_parts(hosts, vms, parent, next_id);
    merged_names_differ(hosts, vms, parent, next_id);
    assert forall|q: int, k: int|
        0 <= q < all.len() && 0 <= k < n && same_ignoring_case(
            (#[trigger] all[q]).name,
            (#[trigger] vms[k]).name@,
        ) implies adopted(all[q], vms[k], parent) == all[q] by {
        merged_host_is_settled(hosts, vms, parent, next_id, q);
        assert(same_ignoring_case(all[q].name, vms[k].name@));
    }
    nothing_to_adopt(all, vms, parent, n);
    assert forall|q: int| 0 <= q < all.len() implies (#[trigger] is_listed(all, vms, q, n) <==> from
        <= q < to) by {
        merged_host_is_settled(hosts, vms, parent, next_id, q);
        listed_iff_named(all, vms, q);
    }
    block_is_picked(all, vms, parent, from, to, all.len() as int);
    assert(staying(all, vms, parent) =~= rest);
    assert(moving(all, vms, parent) =~= all.subrange(from, to));
    merging_again_adds_nothing(hosts, vms, parent, next_id, later_id);
    assert(merged(all, vms, parent, later_id) =~= all);
    if n > 0 {
        let i = choose|i: int|
            0 <= i < hosts.len() && !#[trigger] is_listed(hosts, vms, i, vms.len() as int);
        picked_from(hosts, vms, parent, false, hosts.len() as int);
        let j = position_is_picked(hosts, vms, hosts.len() as int, i);
        assert(rest.len() > 0);
        let q = if from > 0 {
            0
        } else {
            to
        };
        assert(!is_listed(all, vms, q, n));
    }
}

// ── A merge, written out ─────────────────────────────────────────────────

/// The host at position `i` is a machine of the list: the first host that has the
/// machine's name, up to case.
pub open spec fn is_machine(hosts: Seq<HostView>, vms: Seq<VmInfo>, i: int) -> bool {
    exists|k: int| 0 <= k < vms.len() && #[trigger] is_first_named(hosts, vms[k].name@, i)
}

/// The machine at position `k` of the list becomes a new host: no host and no machine
/// before it in the list has its name, up to case.
pub open spec fn becomes_a_host(hosts: Seq<HostView>, vms: Seq<VmInfo>, k: int) -> bool {
    &&& 0 <= k < vms.len()
    &&& forall|i: int|
        0 <= i < hosts.len() ==> !same_ignoring_case(#[trigger] hosts[i].name, vms[k].name@)
    &&& forall|j: int| 0 <= j < k ==> !same_ignoring_case(#[trigger] vms[j].name@, vms[k].name@)
}

/// The positions ascend.
pub open spec fn ascends(at: Seq<int>) -> bool {
    forall|j: int, k: int| 0 <= j < k < at.len() ==> #[trigger] at[j] < #[trigger] at[k]
}

/// The hosts at the given positions.
pub open spec fn hosts_at(hosts: Seq<HostView>, at: Seq<int>) -> Seq<HostView> {
    Seq::new(at.len(), |j: int| hosts[at[j]])
}

/// The host `r` is the host at position `i`, now under its parent, in the state that
/// the last machine of its name in the list was reported in.
pub open spec fn is_placed_host(
    hosts: Seq<HostView>,
    vms: Seq<VmInfo>,
    parent: Seq<char>,
    i: int,
    r: HostView,
) -> bool {
    &&& r.id == hosts[i].id
    &&& r.name == hosts[i].name
    &&& r.ip == hosts[i].ip
    &&& r.status == hosts[i].status
    &&& r.open_ports == hosts[i].open_ports
    &&& r.latency_ms == hosts[i].latency_ms
    &&& r.last_seen == hosts[i].last_seen
    &&& r.last_checked == hosts[i].last_checked
    &&& r.consecutive_failures == hosts[i].consecutive_failures
    &&& r.is_child == hosts[i].is_child
    &&& r.parent == hosts[i].parent
    &&& r.is_child_vm
    &&& r.parent_host == Some(parent)
    &&& exists|k: int|
        0 <= k < vms.len() && #[trigger] is_first_named(hosts, vms[k].name@, i) && r.vm_state
            == Some(vms[k].state@) && forall|j: int|
            k < j < vms.len() ==> !is_first_named(hosts, #[trigger] vms[j].name@, i)
}

/// The host `r` is a new one for a machine: under its parent, in the state that was
/// reported, at the address that was picked, and down unless it is running. Nothing
/// else is known of it.
pub open spec fn is_new_host(vm: VmInfo, parent: Seq<char>, id: u64, r: HostView) -> bool {
    &&& r.id == id
    &&& r.name == vm.name@
    &&& r.ip == vm_address(vm.ip@)
    &&& r.status == if vm.state@ == "Running"@ {
        HostStatus::Unknown
    } else {
        HostStatus::Down
    }
    &&& r.vm_state == Some(vm.state@)
    &&& r.is_child_vm
    &&& r.parent_host == Some(parent)
    &&& r.open_ports.len() == 0
    &&& r.latency_ms is None
    &&& r.last_seen is None
    &&& r.last_checked is None
    &&& r.consecutive_failures == 0
    &&& !r.is_child
    &&& r.parent is None
}

/// The machines go behind the first host with their parent's name and all that
/// follow it and are under the same parent; where there is no such host, to the end.
pub open spec fn is_place_for(hosts: Seq<HostView>, parent: Seq<char>, at: int) -> bool {
    if exists|p: int| is_first_named(hosts, parent, p) {
        exists|p: int| #[trigger]
            is_first_named(hosts, parent, p) && p < at <= hosts.len() && (forall|q: int|
                p < q < at ==> (#[trigger] hosts[q]).parent_host == Some(parent)) && (at
                < hosts.len() ==> hosts[at].parent_host != Some(parent))
    } else {
        at == hosts.len()
    }
}

/// Where everything stands after a merge: the positions of the hosts that are no
/// machines, of those that are, and of the new machines, and the place at which the
/// latter two stand among the former.
pub struct Placing {
    pub rest: Seq<int>,
    pub moved: Seq<int>,
    pub new: Seq<int>,
    pub at: int,
}

proof fn host_of_is_first_named(hosts: Seq<HostView>, vm: VmInfo, i: int)
    ensures
        host_of(hosts, vm) == Some(i) <==> is_first_named(hosts, vm.name@, i),
        host_of(hosts, vm) is None <==> forall|k: int|
            0 <= k < hosts.len() ==> !same_ignoring_case(#[trigger] hosts[k].name, vm.name@),
{
    first_called_in_range(hosts, vm.name@, hosts.len() as int);
    if is_first_named(hosts, vm.name@, i) {
        assert(same_ignoring_case(hosts[i].name, vm.name@));
    }
    if let Some(j) = host_of(hosts, vm) {
        assert(same_ignoring_case(hosts[j].name, vm.name@));
    }
}

proof fn listed_hosts_are_machines(hosts: Seq<HostView>, vms: Seq<VmInfo>, i: int)
    ensures
        is_listed(hosts, vms, i, vms.len() as int) <==> is_machine(hosts, vms, i),
{
    if is_listed(hosts, vms, i, vms.len() as int) {
        let k = choose|k: int|
            0 <= k < vms.len() && #[trigger] host_of(hosts, vms[k]) == Some(i);
        host_of_is_first_named(hosts, vms[k], i);
        assert(is_first_named(hosts, vms[k].name@, i));
    }
    if is_machine(hosts, vms, i) {
        let k = choose|k: int|
            0 <= k < vms.len() && #[trigger] is_first_named(hosts, vms[k].name@, i);
        host_of_is_first_named(hosts, vms[k], i);
        assert(host_of(hosts, vms[k]) == Some(i));
    }
}

proof fn new_machines_become_hosts(hosts: Seq<HostView>, vms: Seq<VmInfo>, k: int)
    requires
        0 <= k < vms.len(),
    ensures
        is_new(hosts, vms, k) <==> becomes_a_host(hosts, vms, k),
{
    host_of_is_first_named(hosts, vms[k], 0);
}

proof fn picked_at_has_each(hosts: Seq<HostView>, vms: Seq<VmInfo>, listed: bool, n: int, i: int)
    requires
        0 <= i < n,
        is_listed(hosts, vms, i, vms.len() as int) == listed,
    ensures
        picked_at(hosts, vms, listed, n).contains(i),
    decreases n,
{
    let at = picked_at(hosts, vms, listed, n);
    if i < n - 1 {
        picked_at_has_each(hosts, vms, listed, n - 1, i);
        let before = picked_at(hosts, vms, listed, n - 1);
        let j = choose|j: int| 0 <= j < before.len() && before[j] == i;
        assert(at[j] == i);
    } else {
        assert(at.last() == i);
    }
}

proof fn adopted_host_is_placed(
    hosts: Seq<HostView>,
    vms: Seq<VmInfo>,
    parent: Seq<char>,
    i: int,
    n: int,
) -> (k: int)
    requires
        0 <= i < hosts.len(),
        0 <= n <= vms.len(),
        is_listed(hosts, vms, i, n),
    ensures
        0 <= k < n,
        host_of(hosts, vms[k]) == Some(i),
        forall|j: int| k < j < n ==> #[trigger] host_of(hosts, vms[j]) != Some(i),
        adopting(hosts, vms, parent, n)[i] == adopted(hosts[i], vms[k], parent),
    decreases n,
{
    let k = choose|k: int| 0 <= k < n && #[trigger] host_of(hosts, vms[k]) == Some(i);
    adopting_marks(hosts, vms, parent, n - 1);
    first_called_in_range(hosts, vms[n - 1].name@, hosts.len() as int);
    if host_of(hosts, vms[n - 1]) == Some(i) {
        if is_listed(hosts, vms, i, n - 1) {
            let _ = adopted_host_is_placed(hosts, vms, parent, i, n - 1);
        }
        n - 1
    } else {
        assert(k < n - 1);
        assert(is_listed(hosts, vms, i, n - 1));
        adopted_host_is_placed(hosts, vms, parent, i, n - 1)
    }
}

proof fn moved_host_is_placed(
    hosts: Seq<HostView>,
    vms: Seq<VmInfo>,
    parent: Seq<char>,
    i: int,
)
    requires
        0 <= i < hosts.len(),
        is_listed(hosts, vms, i, vms.len() as int),
    ensures
        is_placed_host(
            hosts,
            vms,
            parent,
            i,
            adopting(hosts, vms, parent, vms.len() as int)[i],
        ),
{
    let k = adopted_host_is_placed(hosts, vms, parent, i, vms.len() as int);
    host_of_is_first_named(hosts, vms[k], i);
    assert forall|j: int| k < j < vms.len() implies !is_first_named(
        hosts,
        #[trigger] vms[j].name@,
        i,
    ) by {
        host_of_is_first_named(hosts, vms[j], i);
        assert(host_of(hosts, vms[j]) != Some(i));
    }
    assert(is_first_named(hosts, vms[k].name@, i));
}

proof fn past_children_ends(hosts: Seq<HostView>, parent: Seq<char>, at: int)
    requires
        0 <= at <= hosts.len(),
    ensures
        ({
            let end = past_children(hosts, parent, at);
            end < hosts.len() ==> hosts[end].parent_host != Some(parent)
        }),
    decreases hosts.len() - at,
{
    if at < hosts.len() && hosts[at].parent_host == Some(parent) {
        past_children_ends(hosts, parent, at + 1);
        past_children_are_children(hosts, parent, at + 1);
    }
}

proof fn place_is_behind_the_parent(hosts: Seq<HostView>, parent: Seq<char>)
    ensures
        is_place_for(hosts, parent, place_for(hosts, parent)),
        0 <= place_for(hosts, parent) <= hosts.len(),
{
    first_called_in_range(hosts, parent, hosts.len() as int);
    match first_called(hosts, parent, hosts.len() as int) {
        Some(p) => {
            past_children_ends(hosts, parent, p + 1);
            past_children_are_children(hosts, parent, p + 1);
            assert(is_first_named(hosts, parent, p));
        },
        None => {
            assert forall|p: int| !is_first_named(hosts, parent, p) by {
                if is_first_named(hosts, parent, p) {
                    assert(same_ignoring_case(hosts[p].name, parent));
                }
            }
        },
    }
}

proof fn staying_hosts_are_at(hosts: Seq<HostView>, vms: Seq<VmInfo>, parent: Seq<char>)
    ensures
        staying(hosts, vms, parent) == hosts_at(
            hosts,
            picked_at(hosts, vms, false, hosts.len() as int),
        ),
{
    let n = hosts.len() as int;
    picked_from(hosts, vms, parent, false, n);
    adopting_marks(hosts, vms, parent, vms.len() as int);
    let at = picked_at(hosts, vms, false, n);
    assert forall|j: int| 0 <= j < at.len() implies staying(hosts, vms, parent)[j] == hosts_at(
        hosts,
        at,
    )[j] by {
        assert(0 <= at[j] < n);
    }
    assert(staying(hosts, vms, parent) =~= hosts_at(hosts, at));
}

/// Where everything stands after a merge. The hosts that are no machines of the list
/// stay as they are, in their order. Behind the parent come the hosts that are
/// machines, in their order, each in the state that was reported last and otherwise
/// as it was; then a host for each new machine, in the order of the list, with the
/// next ids.
pub proof fn merging_places_the_machines(
    hosts: Seq<HostView>,
    vms: Seq<VmInfo>,
    parent: Seq<char>,
    next_id: u64,
) -> (p: Placing)
    ensures
        ascends(p.rest),
        ascends(p.moved),
        ascends(p.new),
        forall|i: int|
            p.rest.contains(i) <==> 0 <= i < hosts.len() && !#[trigger] is_machine(hosts, vms, i),
        forall|i: int|
            p.moved.contains(i) <==> 0 <= i < hosts.len() && #[trigger] is_machine(hosts, vms, i),
        forall|k: int| p.new.contains(k) <==> #[trigger] becomes_a_host(hosts, vms, k),
        0 <= p.at <= p.rest.len(),
        is_place_for(hosts_at(hosts, p.rest), parent, p.at),
        ({
            let r = merged(hosts, vms, parent, next_id);
            let moved = p.moved.len() as int;
            let new = p.new.len() as int;
            &&& r.len() == p.rest.len() + moved + new
            &&& forall|j: int| 0 <= j < p.at ==> #[trigger] r[j] == hosts[p.rest[j]]
            &&& forall|j: int|
                0 <= j < moved ==> is_placed_host(
                    hosts,
                    vms,
                    parent,
                    #[trigger] p.moved[j],
                    r[p.at + j],
                )
            &&& forall|j: int|
                0 <= j < new ==> is_new_host(
                    vms[#[trigger] p.new[j]],
                    parent,
                    id_after(next_id, j as nat),
                    r[p.at + moved + j],
                )
            &&& forall|j: int|
                p.at <= j < p.rest.len() ==> hosts[#[trigger] p.rest[j]] == r[moved + new + j]
        }),
{
    let n = hosts.len() as int;
    let m = vms.len() as int;
    let rest = picked_at(hosts, vms, false, n);
    let moved = picked_at(hosts, vms, true, n);
    let new = new_at(hosts, vms, m);
    let stay = staying(hosts, vms, parent);
    let at = place_for(stay, parent);
    picked_from(hosts, vms, parent, false, n);
    picked_from(hosts, vms, parent, true, n);
    newcomers_from(hosts, vms, parent, next_id, m);
    staying_hosts_are_at(hosts, vms, parent);
    place_is_behind_the_parent(stay, parent);
    assert forall|i: int|
        rest.contains(i) <==> 0 <= i < hosts.len() && !#[trigger] is_machine(hosts, vms, i) by {
        listed_hosts_are_machines(hosts, vms, i);
        if 0 <= i < n && !is_machine(hosts, vms, i) {
            picked_at_has_each(hosts, vms, false, n, i);
        }
        if rest.contains(i) {
            let j = choose|j: int| 0 <= j < rest.len() && rest[j] == i;
            assert(0 <= rest[j] < n);
        }
    }
    assert forall|i: int|
        moved.contains(i) <==> 0 <= i < hosts.len() && #[trigger] is_machine(hosts, vms, i) by {
        listed_hosts_are_machines(hosts, vms, i);
        if 0 <= i < n && is_machine(hosts, vms, i) {
            picked_at_has_each(hosts, vms, true, n, i);
        }
        if moved.contains(i) {
            let j = choose|j: int| 0 <= j < moved.len() && moved[j] == i;
            assert(0 <= moved[j] < n);
        }
    }
    assert forall|k: int| new.contains(k) <==> #[trigger] becomes_a_host(hosts, vms, k) by {
        if becomes_a_host(hosts, vms, k) {
            new_machines_become_hosts(hosts, vms, k);
            let j = new_machine_has_a_host(hosts, vms, m, k);
            assert(new[j] == k);
        }
        if new.contains(k) {
            let j = choose|j: int| 0 <= j < new.len() && new[j] == k;
            assert(0 <= new[j] < m);
            new_machines_become_hosts(hosts, vms, k);
        }
    }
    let r = merged(hosts, vms, parent, next_id);
    let movers = moving(hosts, vms, parent);
    let comers = newcomers(hosts, vms, parent, next_id, m);
    assert(r == stay.take(at) + movers + comers + stay.skip(at));
    assert forall|j: int| 0 <= j < moved.len() implies is_placed_host(
        hosts,
        vms,
        parent,
        #[trigger] moved[j],
        r[at + j],
    ) by {
        assert(r[at + j] == movers[j]);
        moved_host_is_placed(hosts, vms, parent, moved[j]);
    }
    assert forall|j: int| 0 <= j < new.len() implies is_new_host(
        vms[#[trigger] new[j]],
        parent,
        id_after(next_id, j as nat),
        r[at + moved.len() + j],
    ) by {
        assert(r[at + moved.len() + j] == comers[j]);
    }
    Placing { rest, moved, new, at }
}

/// The ids that a merge takes are as many as there are new machines.
pub proof fn each_new_machine_takes_one_id(
    hosts: Seq<HostView>,
    vms: Seq<VmInfo>,
    parent: Seq<char>,
    next_id: u64,
)
    ensures
        merged(hosts, vms, parent, next_id).len() == hosts.len() + newcomers(
            hosts,
            vms,
            parent,
            next_id,
            vms.len() as int,
        ).len(),
{
    let n = hosts.len() as int;
    picked_from(hosts, vms, parent, false, n);
    picked_from(hosts, vms, parent, true, n);
    place_is_behind_the_parent(staying(hosts, vms, parent), parent);
}

/// A merge can be made unless every host is a machine of the list.
pub proof fn merges_need_a_host_that_is_no_machine(hosts: Seq<HostView>, vms: Seq<VmInfo>)
    ensures
        can_merge(hosts, vms) <==> vms.len() == 0 || exists|i: int|
            0 <= i < hosts.len() && !#[trigger] is_machine(hosts, vms, i),
{
    if can_merge(hosts, vms) && vms.len() > 0 {
        let i = choose|i: int|
            0 <= i < hosts.len() && !#[trigger] is_listed(hosts, vms, i, vms.len() as int);
        listed_hosts_are_machines(hosts, vms, i);
        assert(!is_machine(hosts, vms, i));
    }
    if exists|i: int| 0 <= i < hosts.len() && !#[trigger] is_machine(hosts, vms, i) {
        let i = choose|i: int| 0 <= i < hosts.len() && !#[trigger] is_machine(hosts, vms, i);
        listed_hosts_are_machines(hosts, vms, i);
        assert(!is_listed(hosts, vms, i, vms.len() as int));
    }
}

// ── Addresses, written out ───────────────────────────────────────────────

proof fn comma_parts_are_split(s: Seq<char>)
    ensures
        comma_parts(s) == split(s, ','),
        comma_parts(s).len() > 0,
    decreases s.len(),
{
    if s.len() > 0 {
        comma_parts_are_split(s.drop_last());
    }
}

proof fn first_ipv4_is_first(parts: Seq<Seq<char>>, n: int, i: int)
    requires
        0 <= i < n <= parts.len(),
        parts[i].contains('.'),
        !parts[i].contains(':'),
        forall|k: int|
            0 <= k < i ==> !(#[trigger] parts[k]).contains('.') || parts[k].contains(':'),
    ensures
        first_ipv4(parts, n) == Some(parts[i]),
    decreases n,
{
    if i < n - 1 {
        first_ipv4_is_first(parts, n - 1, i);
    } else {
        no_ipv4_before(parts, n - 1);
    }
}

proof fn no_ipv4_before(parts: Seq<Seq<char>>, n: int)
    requires
        n <= parts.len(),
        forall|k: int|
            0 <= k < n ==> !(#[trigger] parts[k]).contains('.') || parts[k].contains(':'),
    ensures
        first_ipv4(parts, n) is None,
    decreases n,
{
    if n > 0 {
        no_ipv4_before(parts, n - 1);
        assert(!looks_like_ipv4(parts[n - 1]));
    }
}

/// Of the addresses between commas that a machine is reported with, it is probed at
/// the first that has a dot and no colon, without white space around it.
pub proof fn first_ipv4_address_is_picked(ip: Seq<char>, i: int)
    requires
        0 <= i < split(ip, ',').len(),
        split(ip, ',')[i].contains('.'),
        !split(ip, ',')[i].contains(':'),
        forall|k: int|
            0 <= k < i ==> !(#[trigger] split(ip, ',')[k]).contains('.') || split(
                ip,
                ',',
            )[k].contains(':'),
    ensures
        vm_address(ip) == trimmed(split(ip, ',')[i]),
{
    comma_parts_are_split(ip);
    first_ipv4_is_first(comma_parts(ip), comma_parts(ip).len() as int, i);
}

/// A machine of whose addresses none has a dot and no colon is probed at none.
pub proof fn no_other_address_is_picked(ip: Seq<char>)
    requires
        forall|k: int|
            0 <= k < split(ip, ',').len() ==> !(#[trigger] split(ip, ',')[k]).contains('.')
                || split(ip, ',')[k].contains(':'),
    ensures
        vm_address(ip).len() == 0,
{
    comma_parts_are_split(ip);
    no_ipv4_before(comma_parts(ip), comma_parts(ip).len() as int);
}

// ── Answers and shells, written out ──────────────────────────────────────

/// An answer is read without the white space around it: nothing is no machine, a
/// bracket begins a list, and anything else is one machine. What is handed on is the
/// whole text.
pub proof fn answers_go_by_their_first_character(r: Inventory, stdout: Seq<char>)
    requires
        answers(r, stdout),
    ensures
        trimmed(stdout).len() == 0 ==> r is Empty,
        trimmed(stdout).len() > 0 && trimmed(stdout)[0] == '[' ==> (r matches Inventory::Many(s)
            && s@ == trimmed(stdout)),
        trimmed(stdout).len() > 0 && trimmed(stdout)[0] != '[' ==> (r matches Inventory::One(s)
            && s@ == trimmed(stdout)),
{
}

/// The message of a failure names the address and tells what the shell wrote: its
/// error stream first, then its output, each without white space around it; or that
/// it wrote nothing.
pub proof fn failures_tell_what_was_written(ip: Seq<char>, stdout: Seq<char>, stderr: Seq<char>)
    ensures
        ({
            let head = "WinRM failed for "@ + ip + " using configured credentials: "@;
            let out = trimmed(stdout);
            let err = trimmed(stderr);
            let text = failure_text(ip, stdout, stderr);
            &&& err.len() > 0 && out.len() > 0 ==> text == head + err + seq![' '] + out
            &&& err.len() > 0 && out.len() == 0 ==> text == head + err
            &&& err.len() == 0 && out.len() > 0 ==> text == head + out
            &&& err.len() == 0 && out.len() == 0 ==> text == head
                + "PowerShell exited without an error message"@
        }),
{
    reveal_strlit(" ");
    assert(" "@ =~= seq![' ']);
    let head = "WinRM failed for "@ + ip + " using configured credentials: "@;
    let out = trimmed(stdout);
    let err = trimmed(stderr);
    let text = failure_text(ip, stdout, stderr);
    if err.len() > 0 && out.len() > 0 {
        assert(text =~= head + err + seq![' '] + out);
    } else if err.len() > 0 {
        assert(text =~= head + err);
    } else if out.len() > 0 {
        assert(text =~= head + out);
    }
}

/// A shell is looked for under three names, in order; the last error is told where
/// none is found.
pub proof fn shells_are_looked_for_by_name(last_error: Option<String>)
    ensures
        shell_names().len() == 3,
        shell_names()[0] == "powershell.exe"@,
        shell_names()[1] == "powershell"@,
        shell_names()[2] == "pwsh"@,
        last_error matches Some(e) ==> no_shell_text(last_error)
            == "PowerShell was not found. Run netprobe from Windows, or install PowerShell as 'pwsh' in this environment. Last error: "@
            + e@,
        last_error is None ==> no_shell_text(last_error)
            == "PowerShell was not found. Run netprobe from Windows, or install PowerShell as 'pwsh' in this environment. Last error: "@
            + "not found"@,
{
}

} // verus!
