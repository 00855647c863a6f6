//! Virtual machines that a hypervisor reports: reading its answer, and placing
//! the machines beneath it.

use crate::group::{first_called, first_called_in_range, position_called};
use crate::host::{
    fresh_host, host_views, id_after, text_of, Host, HostIds, HostStatus, HostView,
};
use crate::text::{eq_ignore_case, same, same_ignoring_case, trim, trimmed};
use vstd::prelude::*;
use vstd::utf8::{decode_utf8, valid_utf8};

verus! {

/// A virtual machine as its hypervisor reports it.
#[derive(Debug, Clone)]
pub struct VmInfo {
    pub name: String,
    pub state: String,
    /// Its addresses, with commas between them.
    pub ip: String,
}

// ── Addresses ────────────────────────────────────────────────────────────

/// The parts of a text between its commas.
pub open spec fn comma_parts(s: Seq<char>) -> Seq<Seq<char>>
    decreases s.len(),
{
    if s.len() == 0 {
        seq![s]
    } else {
        let parts = comma_parts(s.drop_last());
        if s.last() == ',' {
            parts.push(seq![])
        } else {
            parts.drop_last().push(parts.last().push(s.last()))
        }
    }
}

/// The part looks like an IPv4 address: it has a dot and no colon.
pub open spec fn looks_like_ipv4(part: Seq<char>) -> bool {
    part.contains('.') && !part.contains(':')
}

/// The first of the first `n` parts that looks like an IPv4 address, if one does.
pub open spec fn first_ipv4(parts: Seq<Seq<char>>, n: int) -> Option<Seq<char>>
    decreases n,
{
    if n <= 0 {
        None
    } else {
        match first_ipv4(parts, n - 1) {
            Some(p) => Some(p),
            None => if looks_like_ipv4(parts[n - 1]) {
                Some(parts[n - 1])
            } else {
                None
            },
        }
    }
}

/// The address that a machine is probed at: the first of its IPv4 addresses, or
/// none.
pub open spec fn vm_address(ip: Seq<char>) -> Seq<char> {
    match first_ipv4(comma_parts(ip), comma_parts(ip).len() as int) {
        Some(part) => trimmed(part),
        None => seq![],
    }
}

/// What is found in the first `n` parts depends on these parts only.
proof fn first_ipv4_of_prefix(a: Seq<Seq<char>>, b: Seq<Seq<char>>, n: int)
    requires
        n <= a.len(),
        n <= b.len(),
        forall|i: int| 0 <= i < n ==> #[trigger] a[i] == b[i],
    ensures
        first_ipv4(a, n) == first_ipv4(b, n),
    decreases n,
{
    if n > 0 {
        first_ipv4_of_prefix(a, b, n - 1);
        assert(a[n - 1] == b[n - 1]);
    }
}

/// The address that a machine is probed at.
fn pick_address(ip: &str) -> (r: String)
    ensures
        r@ == vm_address(ip@),
{
    let mut found: Option<String> = None;
    let mut part = String::new();
    let mut dot = false;
    let mut colon = false;
    assert(comma_parts(ip@.take(0)) =~= seq![ip@.take(0)]);
    assert(part@ =~= ip@.take(0));
    for c in it: ip.chars()
        invariant
            it.seq() == ip@,
            comma_parts(ip@.take(it.index())).len() > 0,
            part@ == comma_parts(ip@.take(it.index())).last(),
            dot == part@.contains('.'),
            colon == part@.contains(':'),
            match found {
                Some(p) => first_ipv4(
                    comma_parts(ip@.take(it.index())),
                    comma_parts(ip@.take(it.index())).len() - 1,
                ) == Some(p@),
                None => first_ipv4(
                    comma_parts(ip@.take(it.index())),
                    comma_parts(ip@.take(it.index())).len() - 1,
                ) is None,
            },
    {
        let ghost i = it.index();
        let ghost parts = comma_parts(ip@.take(i));
        let ghost next = comma_parts(ip@.take(i + 1));
        let ghost before = part@;
        assert(ip@.take(i + 1).drop_last() =~= ip@.take(i));
        assert(ip@.take(i + 1).last() == c);
        if c == ',' {
            assert(next =~= parts.push(seq![]));
            proof {
                first_ipv4_of_prefix(parts, next, parts.len() - 1);
            }
            if found.is_none() && dot && !colon {
                found = Some(part.clone());
            }
            part = String::new();
            dot = false;
            colon = false;
            assert(part@ =~= next.last());
        } else {
            assert(next =~= parts.drop_last().push(parts.last().push(c)));
            proof {
                first_ipv4_of_prefix(parts, next, parts.len() - 1);
                contains_pushed(before, c, '.');
                contains_pushed(before, c, ':');
            }
            part.push(c);
            if c == '.' {
                dot = true;
            }
            if c == ':' {
                colon = true;
            }
        }
    }
    assert(ip@.take(ip@.len() as int) =~= ip@);
    match found {
        Some(p) => trim(p.as_str()),
        None => {
            if dot && !colon {
                trim(part.as_str())
            } else {
                let r = String::new();
                assert(r@ =~= seq![]);
                r
            }
        },
    }
}

proof fn contains_pushed(s: Seq<char>, c: char, x: char)
    ensures
        s.push(c).contains(x) <==> s.contains(x) || c == x,
{
    if s.contains(x) {
        let k = choose|k: int| 0 <= k < s.len() && s[k] == x;
        assert(s.push(c)[k] == x);
    }
    assert(s.push(c)[s.len() as int] == c);
    if s.push(c).contains(x) && c != x {
        let k = choose|k: int| 0 <= k < s.push(c).len() && s.push(c)[k] == x;
        assert(s[k] == x);
    }
}

// ── Placing machines ─────────────────────────────────────────────────────

/// The position of the first host that has a machine's name.
pub open spec fn host_of(hosts: Seq<HostView>, vm: VmInfo) -> Option<int> {
    first_called(hosts, vm.name@, hosts.len() as int)
}

/// A host that its hypervisor has listed.
pub open spec fn adopted(h: HostView, vm: VmInfo, parent: Seq<char>) -> HostView {
    HostView { vm_state: Some(vm.state@), is_child_vm: true, parent_host: Some(parent), ..h }
}

/// The hosts after the first `n` machines have been looked up among them.
pub open spec fn adopting(hosts: Seq<HostView>, vms: Seq<VmInfo>, parent: Seq<char>, n: int) -> Seq<
    HostView,
>
    decreases n,
{
    if n <= 0 {
        hosts
    } else {
        let so_far = adopting(hosts, vms, parent, n - 1);
        match host_of(hosts, vms[n - 1]) {
            Some(i) => so_far.update(i, adopted(so_far[i], vms[n - 1], parent)),
            None => so_far,
        }
    }
}

/// One of the first `n` machines is the host at position `i`.
pub open spec fn is_listed(hosts: Seq<HostView>, vms: Seq<VmInfo>, i: int, n: int) -> bool {
    exists|k: int| 0 <= k < n && #[trigger] host_of(hosts, vms[k]) == Some(i)
}

/// Those of the first `n` hosts that are machines of the list, or those that are
/// not, in order.
pub open spec fn picked(
    hosts: Seq<HostView>,
    vms: Seq<VmInfo>,
    parent: Seq<char>,
    listed: bool,
    n: int,
) -> Seq<HostView>
    decreases n,
{
    if n <= 0 {
        seq![]
    } else if is_listed(hosts, vms, n - 1, vms.len() as int) == listed {
        picked(hosts, vms, parent, listed, n - 1).push(
            adopting(hosts, vms, parent, vms.len() as int)[n - 1],
        )
    } else {
        picked(hosts, vms, parent, listed, n - 1)
    }
}

/// The hosts that are machines of the list.
pub open spec fn moving(hosts: Seq<HostView>, vms: Seq<VmInfo>, parent: Seq<char>) -> Seq<
    HostView,
> {
    picked(hosts, vms, parent, true, hosts.len() as int)
}

/// The hosts that are no machines of the list.
pub open spec fn staying(hosts: Seq<HostView>, vms: Seq<VmInfo>, parent: Seq<char>) -> Seq<
    HostView,
> {
    picked(hosts, vms, parent, false, hosts.len() as int)
}

/// The first position from `at` on whose host is not listed under the parent.
pub open spec fn past_children(hosts: Seq<HostView>, parent: Seq<char>, at: int) -> int
    decreases hosts.len() - at,
{
    if 0 <= at < hosts.len() && hosts[at].parent_host == Some(parent) {
        past_children(hosts, parent, at + 1)
    } else {
        at
    }
}

/// Where the machines of a parent go: behind it and what is already listed under
/// it; at the end if it is not there.
pub open spec fn place_for(hosts: Seq<HostView>, parent: Seq<char>) -> int {
    match first_called(hosts, parent, hosts.len() as int) {
        Some(i) => past_children(hosts, parent, i + 1),
        None => hosts.len() as int,
    }
}

/// The machine at position `k` is none of the hosts, and the first of its name.
pub open spec fn is_new(hosts: Seq<HostView>, vms: Seq<VmInfo>, k: int) -> bool {
    &&& host_of(hosts, vms[k]) is None
    &&& forall|j: int| 0 <= j < k ==> !same_ignoring_case(#[trigger] vms[j].name@, vms[k].name@)
}

/// The host for a new machine: down unless it is running.
pub open spec fn vm_host(id: u64, vm: VmInfo, parent: Seq<char>) -> HostView {
    HostView {
        status: if vm.state@ == "Running"@ {
            HostStatus::Unknown
        } else {
            HostStatus::Down
        },
        ..adopted(fresh_host(id, vm.name@, vm_address(vm.ip@)), vm, parent)
    }
}

/// The hosts for those of the first `n` machines that are new.
pub open spec fn newcomers(
    hosts: Seq<HostView>,
    vms: Seq<VmInfo>,
    parent: Seq<char>,
    next_id: u64,
    n: int,
) -> Seq<HostView>
    decreases n,
{
    if n <= 0 {
        seq![]
    } else {
        let so_far = newcomers(hosts, vms, parent, next_id, n - 1);
        if is_new(hosts, vms, n - 1) {
            so_far.push(vm_host(id_after(next_id, so_far.len()), vms[n - 1], parent))
        } else {
            so_far
        }
    }
}

/// The hosts with the machines of a parent placed beneath it: those that were
/// hosts already, then the new ones.
pub open spec fn merged(
    hosts: Seq<HostView>,
    vms: Seq<VmInfo>,
    parent: Seq<char>,
    next_id: u64,
) -> Seq<HostView> {
    let rest = staying(hosts, vms, parent);
    let at = place_for(rest, parent);
    rest.take(at) + moving(hosts, vms, parent) + newcomers(
        hosts,
        vms,
        parent,
        next_id,
        vms.len() as int,
    ) + rest.skip(at)
}

/// What is passed over stands in the list, and under the parent.
pub(crate) proof fn past_children_are_children(
    hosts: Seq<HostView>,
    parent: Seq<char>,
    at: int,
)
    requires
        0 <= at <= hosts.len(),
    ensures
        at <= past_children(hosts, parent, at) <= hosts.len(),
        forall|q: int|
            at <= q < past_children(hosts, parent, at) ==> (#[trigger] hosts[q]).parent_host
                == Some(parent),
    decreases hosts.len() - at,
{
    if at < hosts.len() && hosts[at].parent_host == Some(parent) {
        past_children_are_children(hosts, parent, at + 1);
    }
}

/// The same position, or none in both.
spec fn same_place(a: Option<usize>, b: Option<int>) -> bool {
    match a {
        Some(i) => b == Some(i as int),
        None => b is None,
    }
}

/// The positions of the hosts that the machines are.
spec fn are_places(places: Seq<Option<usize>>, hosts: Seq<HostView>, vms: Seq<VmInfo>) -> bool {
    &&& places.len() == vms.len()
    &&& forall|k: int|
        0 <= k < vms.len() ==> same_place(#[trigger] places[k], host_of(hosts, vms[k]))
}

/// Looks each machine up among the hosts.
fn locate(hosts: &Vec<Host>, vms: &[VmInfo]) -> (r: Vec<Option<usize>>)
    ensures
        are_places(r@, host_views(hosts@), vms@),
{
    let mut places: Vec<Option<usize>> = Vec::new();
    let n: usize = vms.len();
    for k in 0..n
        invariant
            n == vms@.len(),
            places@.len() == k,
            forall|j: int|
                0 <= j < k ==> same_place(
                    #[trigger] places@[j],
                    host_of(host_views(hosts@), vms@[j]),
                ),
    {
        places.push(position_called(hosts, vms[k].name.as_str()));
    }
    places
}

/// One of the machines is the host at position `i`.
fn is_placed(
    places: &Vec<Option<usize>>,
    i: usize,
    Ghost(given): Ghost<Seq<HostView>>,
    vms: &[VmInfo],
) -> (r: bool)
    requires
        are_places(places@, given, vms@),
    ensures
        r == is_listed(given, vms@, i as int, vms@.len() as int),
{
    for k in 0..places.len()
        invariant
            are_places(places@, given, vms@),
            forall|j: int|
                0 <= j < k ==> #[trigger] host_of(given, vms@[j]) != Some(i as int),
    {
        assert(same_place(places@[k as int], host_of(given, vms@[k as int])));
        if let Some(at) = places[k] {
            if at == i {
                return true;
            }
        }
    }
    false
}

/// Marks the hosts that are machines of the list.
fn adopt(hosts: &mut Vec<Host>, vms: &[VmInfo], parent: &str, places: &Vec<Option<usize>>)
    requires
        are_places(places@, host_views(old(hosts)@), vms@),
    ensures
        host_views(final(hosts)@) == adopting(
            host_views(old(hosts)@),
            vms@,
            parent@,
            vms@.len() as int,
        ),
        final(hosts)@.len() == old(hosts)@.len(),
{
    let ghost given = host_views(hosts@);
    let n: usize = vms.len();
    for k in 0..n
        invariant
            n == vms@.len(),
            are_places(places@, given, vms@),
            given.len() == hosts@.len(),
            host_views(hosts@) == adopting(given, vms@, parent@, k as int),
    {
        let ghost before = hosts@;
        assert(same_place(places@[k as int], host_of(given, vms@[k as int])));
        if let Some(idx) = places[k] {
            proof {
                first_called_in_range(given, vms@[k as int].name@, given.len() as int);
            }
            hosts[idx].vm_state = Some(vms[k].state.clone());
            hosts[idx].is_child_vm = true;
            hosts[idx].parent_host = Some(parent.to_string());
            assert(host_views(hosts@) =~= host_views(before).update(
                idx as int,
                adopted(host_views(before)[idx as int], vms@[k as int], parent@),
            ));
        }
    }
}

/// The hosts that are machines of the list and those that are not, each in order.
fn part(
    hosts: Vec<Host>,
    places: &Vec<Option<usize>>,
    Ghost(given): Ghost<Seq<HostView>>,
    vms: &[VmInfo],
    Ghost(parent): Ghost<Seq<char>>,
) -> (r: (Vec<Host>, Vec<Host>))
    requires
        are_places(places@, given, vms@),
        hosts@.len() == given.len(),
        host_views(hosts@) == adopting(given, vms@, parent, vms@.len() as int),
    ensures
        host_views(r.0@) == moving(given, vms@, parent),
        host_views(r.1@) == staying(given, vms@, parent),
{
    let ghost all = hosts@;
    let n: usize = hosts.len();
    let mut moved: Vec<Host> = Vec::new();
    let mut rest: Vec<Host> = Vec::new();
    let mut i: usize = 0;
    assert(host_views(moved@) =~= seq![]);
    assert(host_views(rest@) =~= seq![]);
    for h in it: hosts
        invariant
            it.seq() == all,
            i == it.index(),
            n == all.len(),
            all.len() == given.len(),
            are_places(places@, given, vms@),
            host_views(all) == adopting(given, vms@, parent, vms@.len() as int),
            host_views(moved@) == picked(given, vms@, parent, true, i as int),
            host_views(rest@) == picked(given, vms@, parent, false, i as int),
    {
        assert(host_views(all)[i as int] == all[i as int]@);
        assert(host_views(moved@.push(h)) =~= host_views(moved@).push(h@));
        assert(host_views(rest@.push(h)) =~= host_views(rest@).push(h@));
        if is_placed(places, i, Ghost(given), vms) {
            moved.push(h);
        } else {
            rest.push(h);
        }
        i = i + 1;
    }
    (moved, rest)
}

/// The parent has listed the host.
fn is_under(host: &Host, parent: &str) -> (r: bool)
    ensures
        r == (host@.parent_host == Some(parent@)),
{
    match &host.parent_host {
        Some(p) => same(p.as_str(), parent),
        None => false,
    }
}

/// Where the machines of a parent go.
fn find_place(hosts: &Vec<Host>, parent: &str) -> (r: usize)
    ensures
        r == place_for(host_views(hosts@), parent@),
        r <= hosts@.len(),
{
    let ghost views = host_views(hosts@);
    match position_called(hosts, parent) {
        Some(i) => {
            let mut at: usize = i + 1;
            proof {
                past_children_are_children(views, parent@, at as int);
            }
            while at < hosts.len() && is_under(&hosts[at], parent)
                invariant
                    at <= hosts@.len(),
                    views == host_views(hosts@),
                    past_children(views, parent@, at as int) == place_for(views, parent@),
                decreases hosts@.len() - at,
            {
                assert(views[at as int] == hosts@[at as int]@);
                at = at + 1;
            }
            proof {
                if at < hosts@.len() {
                    assert(views[at as int] == hosts@[at as int]@);
                }
            }
            at
        },
        None => hosts.len(),
    }
}

/// The hosts for the new machines.
fn create_hosts(
    vms: &[VmInfo],
    places: &Vec<Option<usize>>,
    Ghost(given): Ghost<Seq<HostView>>,
    parent: &str,
    ids: &mut HostIds,
) -> (r: Vec<Host>)
    requires
        are_places(places@, given, vms@),
    ensures
        host_views(r@) == newcomers(given, vms@, parent@, old(ids).next, vms@.len() as int),
        final(ids).next == id_after(old(ids).next, r@.len()),
{
    let ghost first = ids.next;
    let mut r: Vec<Host> = Vec::new();
    assert(host_views(r@) =~= seq![]);
    let n: usize = vms.len();
    for k in 0..n
        invariant
            n == vms@.len(),
            are_places(places@, given, vms@),
            host_views(r@) == newcomers(given, vms@, parent@, first, k as int),
            ids.next == id_after(first, r@.len()),
    {
        assert(same_place(places@[k as int], host_of(given, vms@[k as int])));
        let mut new = places[k].is_none();
        for j in 0..k
            invariant
                k < vms@.len(),
                k < places@.len(),
                new == (places@[k as int] is None && forall|i: int|
                    0 <= i < j ==> !same_ignoring_case(
                        #[trigger] vms@[i].name@,
                        vms@[k as int].name@,
                    )),
        {
            if eq_ignore_case(vms[j].name.as_str(), vms[k].name.as_str()) {
                new = false;
            }
        }
        if new {
            let ip = pick_address(vms[k].ip.as_str());
            let mut host = Host::from_config(vms[k].name.as_str(), ip.as_str(), ids);
            host.is_child_vm = true;
            host.parent_host = Some(parent.to_string());
            host.vm_state = Some(vms[k].state.clone());
            if !same(vms[k].state.as_str(), "Running") {
                host.status = HostStatus::Down;
            }
            assert(host@ =~= vm_host(id_after(first, r@.len()), vms@[k as int], parent@));
            assert(host_views(r@.push(host)) =~= host_views(r@).push(host@));
            r.push(host);
        }
    }
    r
}

/// One of the hosts is no machine of the list, so that there is a place to put
/// machines behind.
pub open spec fn can_merge(hosts: Seq<HostView>, vms: Seq<VmInfo>) -> bool {
    vms.len() == 0 || exists|i: int|
        0 <= i < hosts.len() && !#[trigger] is_listed(hosts, vms, i, vms.len() as int)
}

/// Whether the machines can be merged into the hosts.
pub fn merge_fits(vms: &[VmInfo], hosts: &Vec<Host>) -> (r: bool)
    ensures
        r == can_merge(host_views(hosts@), vms@),
{
    if vms.len() == 0 {
        return true;
    }
    let ghost given = host_views(hosts@);
    let places = locate(hosts, vms);
    for i in 0..hosts.len()
        invariant
            vms@.len() > 0,
            given == host_views(hosts@),
            are_places(places@, given, vms@),
            forall|j: int|
                0 <= j < i ==> #[trigger] is_listed(given, vms@, j, vms@.len() as int),
    {
        if !is_placed(&places, i, Ghost(given), vms) {
            return true;
        }
    }
    false
}

/// Adds discovered machines as child hosts, positioned after their parent. A
/// machine that is a host already moves there with the state it was reported in.
pub fn merge_vms_into_group(
    parent_name: &str,
    vms: &[VmInfo],
    hosts: &mut Vec<Host>,
    ids: &mut HostIds,
)
    requires
        can_merge(host_views(old(hosts)@), vms@),
    ensures
        host_views(final(hosts)@) == merged(
            host_views(old(hosts)@),
            vms@,
            parent_name@,
            old(ids).next,
        ),
        final(ids).next == id_after(
            old(ids).next,
            newcomers(
                host_views(old(hosts)@),
                vms@,
                parent_name@,
                old(ids).next,
                vms@.len() as int,
            ).len(),
        ),
{
    let ghost given = host_views(hosts@);
    let places = locate(hosts, vms);
    adopt(hosts, vms, parent_name, &places);
    let mut all: Vec<Host> = Vec::new();
    std::mem::swap(&mut all, hosts);
    let (mut moved, mut rest) = part(
        all,
        &places,
        Ghost(given),
        vms,
        Ghost(parent_name@),
    );
    let at: usize = find_place(&rest, parent_name);
    let mut created = create_hosts(vms, &places, Ghost(given), parent_name, ids);
    let ghost kept = rest@;
    let ghost came = moved@;
    let ghost new = created@;
    let mut behind = rest.split_off(at);
    rest.append(&mut moved);
    rest.append(&mut created);
    rest.append(&mut behind);
    *hosts = rest;
    assert(hosts@ =~= kept.take(at as int) + came + new + kept.skip(at as int));
    assert(host_views(hosts@) =~= host_views(kept).take(at as int) + host_views(came) + host_views(
        new,
    ) + host_views(kept).skip(at as int));
}

// ── The answer of a hypervisor ───────────────────────────────────────────

/// The text that `String::from_utf8_lossy` reads from bytes.
pub uninterp spec fn lossy_text(bytes: Seq<u8>) -> Seq<char>;

/// Calls `String::from_utf8_lossy`. What it puts in the place of bytes that are
/// not UTF-8 depends on the bytes alone; bytes that are UTF-8 are decoded.
#[verifier::external_body]
fn from_lossy(bytes: &[u8]) -> (r: String)
    ensures
        r@ == lossy_text(bytes@),
        valid_utf8(bytes@) ==> r@ == decode_utf8(bytes@),
{
    String::from_utf8_lossy(bytes).into_owned()
}

/// What a hypervisor answered: no machine, one as a JSON object, or a JSON array
/// of them.
#[derive(Debug)]
pub enum Inventory {
    Empty,
    One(String),
    Many(String),
}

/// The detail of a failure: what the shell wrote to its error stream, then what it
/// wrote to its output.
pub open spec fn failure_detail(stdout: Seq<char>, stderr: Seq<char>) -> Seq<char> {
    let out = trimmed(stdout);
    let err = trimmed(stderr);
    if err.len() > 0 && out.len() > 0 {
        err + " "@ + out
    } else {
        err + out
    }
}

/// The message of a failure.
pub open spec fn failure_text(ip: Seq<char>, stdout: Seq<char>, stderr: Seq<char>) -> Seq<char> {
    "WinRM failed for "@ + ip + " using configured credentials: "@ + if failure_detail(
        stdout,
        stderr,
    ).len() == 0 {
        "PowerShell exited without an error message"@
    } else {
        failure_detail(stdout, stderr)
    }
}

/// An answer says what the shell's output, without white space around it, holds.
pub open spec fn answers(r: Inventory, stdout: Seq<char>) -> bool {
    let json = trimmed(stdout);
    match r {
        Inventory::Empty => json.len() == 0,
        Inventory::Many(s) => s@ == json && json.len() > 0 && json[0] == '[',
        Inventory::One(s) => s@ == json && json.len() > 0 && json[0] != '[',
    }
}

/// Reads the texts that the shell wrote.
pub fn read_texts(ip: &str, success: bool, stdout: &str, stderr: &str) -> (r: Result<
    Inventory,
    String,
>)
    ensures
        match r {
            Ok(inventory) => success && answers(inventory, stdout@),
            Err(message) => !success && message@ == failure_text(ip@, stdout@, stderr@),
        },
{
    let out = trim(stdout);
    if !success {
        let mut detail = trim(stderr);
        if detail.as_str().unicode_len() > 0 && out.as_str().unicode_len() > 0 {
            detail.append(" ");
        }
        detail.append(out.as_str());
        assert(detail@ =~= failure_detail(stdout@, stderr@));
        let mut message = "WinRM failed for ".to_string();
        message.append(ip);
        message.append(" using configured credentials: ");
        if detail.as_str().unicode_len() == 0 {
            message.append("PowerShell exited without an error message");
        } else {
            message.append(detail.as_str());
        }
        return Err(message);
    }
    if out.as_str().unicode_len() == 0 {
        Ok(Inventory::Empty)
    } else if out.as_str().get_char(0) == '[' {
        Ok(Inventory::Many(out))
    } else {
        Ok(Inventory::One(out))
    }
}

/// What a shell left behind.
#[derive(Debug)]
pub struct ShellOutput {
    pub success: bool,
    pub stdout: Vec<u8>,
    pub stderr: Vec<u8>,
}

/// Reads what the shell left behind.
pub fn read_output(ip: &str, output: &ShellOutput) -> (r: Result<Inventory, String>)
    ensures
        match r {
            Ok(inventory) => output.success && answers(inventory, lossy_text(output.stdout@)),
            Err(message) => !output.success && message@ == failure_text(
                ip@,
                lossy_text(output.stdout@),
                lossy_text(output.stderr@),
            ),
        },
        valid_utf8(output.stdout@) ==> (r matches Ok(inventory) ==> answers(
            inventory,
            decode_utf8(output.stdout@),
        )),
        valid_utf8(output.stdout@) && valid_utf8(output.stderr@) ==> (r matches Err(message)
            ==> message@ == failure_text(
            ip@,
            decode_utf8(output.stdout@),
            decode_utf8(output.stderr@),
        )),
{
    let stdout = from_lossy(output.stdout.as_slice());
    let stderr = from_lossy(output.stderr.as_slice());
    read_texts(ip, output.success, stdout.as_str(), stderr.as_str())
}

// ── Finding a shell ──────────────────────────────────────────────────────

/// The names under which a shell is looked for, in order.
pub open spec fn shell_names() -> Seq<Seq<char>> {
    seq!["powershell.exe"@, "powershell"@, "pwsh"@]
}

/// The search for a shell.
#[derive(Debug)]
pub struct ShellSearch {
    /// How many names were tried and not found.
    pub tried: usize,
    /// The error of the last name that was not found.
    pub last_error: Option<String>,
}

/// What to do next in the search for a shell.
#[derive(Debug)]
pub enum ShellStep {
    /// Start the program with this name.
    Try(&'static str),
    /// No name is left: report this.
    GiveUp(String),
}

/// The message of a search that found no shell.
pub open spec fn no_shell_text(last_error: Option<String>) -> Seq<char> {
    "PowerShell was not found. Run netprobe from Windows, or install PowerShell as 'pwsh' in this environment. Last error: "@
        + match last_error {
        Some(e) => e@,
        None => "not found"@,
    }
}

impl ShellSearch {
    /// A search in which nothing was tried.
    pub fn new() -> (r: ShellSearch)
        ensures
            r.tried == 0,
            r.last_error is None,
    {
        ShellSearch { tried: 0, last_error: None }
    }

    /// The next name to try; the message to report when none is left.
    pub fn next(&self) -> (r: ShellStep)
        ensures
            match r {
                ShellStep::Try(name) => self.tried < shell_names().len() && name@
                    == shell_names()[self.tried as int],
                ShellStep::GiveUp(message) => self.tried >= shell_names().len() && message@
                    == no_shell_text(self.last_error),
            },
    {
        if self.tried == 0 {
            ShellStep::Try("powershell.exe")
        } else if self.tried == 1 {
            ShellStep::Try("powershell")
        } else if self.tried == 2 {
            ShellStep::Try("pwsh")
        } else {
            let mut message =
                "PowerShell was not found. Run netprobe from Windows, or install PowerShell as 'pwsh' in this environment. Last error: ".to_string();
            match &self.last_error {
                Some(e) => message.append(e.as_str()),
                None => message.append("not found"),
            }
            ShellStep::GiveUp(message)
        }
    }

    /// Notes that the program that was tried does not exist.
    pub fn not_found(&mut self, error: &str)
        requires
            old(self).tried < shell_names().len(),
        ensures
            final(self).tried == old(self).tried + 1,
            text_of(final(self).last_error) == Some(error@),
    {
        self.tried = self.tried + 1;
        self.last_error = Some(error.to_string());
    }
}

} // verus!
