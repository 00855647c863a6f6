//! What is shown and known of a host, field by field.

use crate::host::{
    following_id, fresh_host, host_views, id_after, ports_text, role_of, text_of, Host, HostStatus,
};
use crate::text::{decimal, joined_ports};
use vstd::prelude::*;

verus! {

/// The view of a host shows each of its fields.
pub proof fn view_shows_every_field(h: Host)
    ensures
        h@.id == h.id,
        h@.name == h.name@,
        h@.ip == h.ip@,
        h@.status == h.status,
        h@.open_ports == h.open_ports@,
        h@.latency_ms == h.latency_ms,
        h@.last_seen == h.last_seen,
        h@.last_checked == h.last_checked,
        h@.consecutive_failures == h.consecutive_failures,
        h@.is_child == h.is_child,
        h@.is_child_vm == h.is_child_vm,
        h.parent is None ==> h@.parent is None,
        h.parent matches Some(p) ==> h@.parent == Some(p@),
        h.vm_state is None ==> h@.vm_state is None,
        h.vm_state matches Some(s) ==> h@.vm_state == Some(s@),
        h.parent_host is None ==> h@.parent_host is None,
        h.parent_host matches Some(p) ==> h@.parent_host == Some(p@),
{
}

/// The views of hosts are those of the single hosts, in order.
pub proof fn views_are_in_order(hosts: Seq<Host>)
    ensures
        host_views(hosts).len() == hosts.len(),
        forall|i: int| 0 <= i < hosts.len() ==> #[trigger] host_views(hosts)[i] == hosts[i]@,
{
}

/// Each status has its own mark and its own word.
pub proof fn statuses_are_told_apart()
    ensures
        HostStatus::Unknown.symbol_text() == "?"@,
        HostStatus::Up.symbol_text() == "●"@,
        HostStatus::Down.symbol_text() == "✗"@,
        HostStatus::Unknown.label_text() == "unknown"@,
        HostStatus::Up.label_text() == "up"@,
        HostStatus::Down.label_text() == "down"@,
{
}

/// A new host has the given id, name and address, is of unknown status, and
/// nothing else is known of it.
pub proof fn new_hosts_are_unknown(id: u64, name: Seq<char>, ip: Seq<char>)
    ensures
        ({
            let h = fresh_host(id, name, ip);
            &&& h.id == id
            &&& h.name == name
            &&& h.ip == ip
            &&& h.status == HostStatus::Unknown
            &&& h.open_ports.len() == 0
            &&& h.latency_ms is None
            &&& h.last_seen is None
            &&& h.last_checked is None
            &&& h.consecutive_failures == 0
            &&& !h.is_child
            &&& h.parent is None
            &&& h.vm_state is None
            &&& !h.is_child_vm
            &&& h.parent_host is None
        }),
{
}

/// Ids count up by one; after the last they start over at zero.
pub proof fn ids_count_by_one(id: u64, count: nat)
    ensures
        id < u64::MAX ==> following_id(id) == id + 1,
        following_id(u64::MAX) == 0,
        id_after(id, 0) == id,
        id_after(id, count + 1) == following_id(id_after(id, count)),
        id + count <= u64::MAX ==> id_after(id, count) == id + count,
    decreases count,
{
    if count > 0 {
        ids_count_by_one(id, (count - 1) as nat);
    }
}

// ── Roles ────────────────────────────────────────────────────────────────

/// Ports 88 and 389 together make a domain controller, whatever else is open.
pub proof fn kerberos_and_ldap_make_a_domain_controller(ports: Seq<u16>)
    ensures
        ports.contains(88) && ports.contains(389) <==> role_of(ports) == "DC"@,
{
    roles_differ();
}

/// Each role that goes by single ports is given just if one of its ports is open
/// and none of a role before it: Hyper-V by 2179, SCCM by 10123, NX Witness by
/// 7001, print servers by 9100 or 631, web servers by 80 or 443, WinRM by 5985,
/// SSH by 22; a host with none of these has none.
pub proof fn roles_go_by_their_ports(ports: Seq<u16>)
    ensures
        ({
            let dc = ports.contains(88) && ports.contains(389);
            let hv = ports.contains(2179);
            let cm = ports.contains(10123);
            let nx = ports.contains(7001);
            let print = ports.contains(9100) || ports.contains(631);
            let web = ports.contains(80) || ports.contains(443);
            let rm = ports.contains(5985);
            let ssh = ports.contains(22);
            let role = role_of(ports);
            &&& role == "Hyper-V"@ <==> hv && !dc
            &&& role == "SCCM"@ <==> cm && !hv && !dc
            &&& role == "NxWitness"@ <==> nx && !cm && !hv && !dc
            &&& role == "Print"@ <==> print && !nx && !cm && !hv && !dc
            &&& role == "Web"@ <==> web && !print && !nx && !cm && !hv && !dc
            &&& role == "WinRM"@ <==> rm && !web && !print && !nx && !cm && !hv && !dc
            &&& role == "SSH"@ <==> ssh && !rm && !web && !print && !nx && !cm && !hv && !dc
            &&& role == "—"@ <==> !(dc || hv || cm || nx || print || web || rm || ssh)
        }),
{
    roles_differ();
}

proof fn roles_differ()
    ensures
        "DC"@.len() == 2 && "DC"@[0] == 'D',
        "Hyper-V"@.len() == 7 && "Hyper-V"@[0] == 'H',
        "SCCM"@.len() == 4 && "SCCM"@[0] == 'S',
        "NxWitness"@.len() == 9 && "NxWitness"@[0] == 'N',
        "Print"@.len() == 5 && "Print"@[0] == 'P',
        "Web"@.len() == 3 && "Web"@[0] == 'W',
        "WinRM"@.len() == 5 && "WinRM"@[0] == 'W',
        "SSH"@.len() == 3 && "SSH"@[0] == 'S',
        "—"@.len() == 1,
{
    reveal_strlit("DC");
    reveal_strlit("Hyper-V");
    reveal_strlit("SCCM");
    reveal_strlit("NxWitness");
    reveal_strlit("Print");
    reveal_strlit("Web");
    reveal_strlit("WinRM");
    reveal_strlit("SSH");
    reveal_strlit("—");
}

/// A role goes by the set of open ports, not by their order or number.
pub proof fn roles_go_by_the_set_of_ports(a: Seq<u16>, b: Seq<u16>)
    requires
        forall|p: u16| #[trigger] a.contains(p) <==> b.contains(p),
    ensures
        role_of(a) == role_of(b),
{
}

/// Up to six ports are shown as they are; of more, the first six and how many more
/// there are; a dash stands for none.
pub proof fn at_most_six_ports_are_shown(ports: Seq<u16>)
    ensures
        ports.len() == 0 ==> ports_text(ports) == "—"@,
        1 <= ports.len() <= 6 ==> ports_text(ports) == joined_ports(ports, ","@),
        ports.len() > 6 ==> ports_text(ports) == joined_ports(ports.subrange(0, 6), ","@) + "..+"@
            + decimal((ports.len() - 6) as nat),
{
    if ports.len() > 6 {
        assert(ports.take(6) =~= ports.subrange(0, 6));
    }
}

/// The characters of an optional text are those of the text.
pub proof fn optional_texts_are_kept(s: Option<String>)
    ensures
        s is None <==> text_of(s) is None,
        s matches Some(t) ==> text_of(s) == Some(t@),
{
}

} // verus!
