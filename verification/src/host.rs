//! A monitored host: identity, last known state, inferred role.

use crate::clock::Stamp;
use crate::text::{decimal, join_ports, joined_ports, push_decimal};
use vstd::prelude::*;

verus! {

/// What the last scans say of a host.
#[derive(Debug, Clone, Copy, PartialEq, Eq, Structural)]
pub enum HostStatus {
    Unknown,
    Up,
    Down,
}

impl HostStatus {
    /// The one-character mark of a status.
    pub open spec fn symbol_text(self) -> Seq<char> {
        match self {
            HostStatus::Unknown => "?"@,
            HostStatus::Up => "●"@,
            HostStatus::Down => "✗"@,
        }
    }

    /// The plain-text label of a status.
    pub open spec fn label_text(self) -> Seq<char> {
        match self {
            HostStatus::Unknown => "unknown"@,
            HostStatus::Up => "up"@,
            HostStatus::Down => "down"@,
        }
    }

    /// The mark shown in the table.
    pub fn symbol(&self) -> (r: &'static str)
        ensures
            r@ == self.symbol_text(),
    {
        match self {
            HostStatus::Unknown => "?",
            HostStatus::Up => "●",
            HostStatus::Down => "✗",
        }
    }

    /// The plain-text label, used in CSV export.
    pub fn label(&self) -> (r: &'static str)
        ensures
            r@ == self.label_text(),
    {
        match self {
            HostStatus::Unknown => "unknown",
            HostStatus::Up => "up",
            HostStatus::Down => "down",
        }
    }
}

/// The source of host ids: each id is one more than the one before it.
#[derive(Debug)]
pub struct HostIds {
    pub next: u64,
}

/// The id after `id`; the numbers start over at zero after the last.
pub open spec fn following_id(id: u64) -> u64 {
    if id == u64::MAX {
        0
    } else {
        (id + 1) as u64
    }
}

/// The id that comes `count` ids after `id`.
pub open spec fn id_after(id: u64, count: nat) -> u64
    decreases count,
{
    if count == 0 {
        id
    } else {
        following_id(id_after(id, (count - 1) as nat))
    }
}

impl HostIds {
    /// A source whose first id is one.
    pub fn new() -> (r: HostIds)
        ensures
            r.next == 1,
    {
        HostIds { next: 1 }
    }

    /// Hands out the next id.
    pub fn take(&mut self) -> (id: u64)
        ensures
            id == old(self).next,
            final(self).next == following_id(old(self).next),
    {
        let id: u64 = self.next;
        self.next = if id == u64::MAX {
            0
        } else {
            id + 1
        };
        id
    }
}

/// A monitored host.
#[derive(Debug, Clone)]
pub struct Host {
    /// Stable identity, independent of position in the group's host vector.
    pub id: u64,
    pub name: String,
    pub ip: String,
    pub status: HostStatus,
    pub open_ports: Vec<u16>,
    pub latency_ms: Option<u64>,
    pub last_seen: Option<Stamp>,
    pub last_checked: Option<Stamp>,
    pub consecutive_failures: u32,
    /// Display this host indented under its parent (set from config).
    pub is_child: bool,
    /// Name of the parent host (cosmetic tree grouping from config).
    pub parent: Option<String>,
    /// Power state that a hypervisor reported for this host.
    pub vm_state: Option<String>,
    /// A hypervisor listed this host as one of its virtual machines.
    pub is_child_vm: bool,
    /// Name of the hypervisor that listed this host.
    pub parent_host: Option<String>,
}

/// A host as plain values.
#[verifier::ext_equal]
pub struct HostView {
    pub id: u64,
    pub name: Seq<char>,
    pub ip: Seq<char>,
    pub status: HostStatus,
    pub open_ports: Seq<u16>,
    pub latency_ms: Option<u64>,
    pub last_seen: Option<Stamp>,
    pub last_checked: Option<Stamp>,
    pub consecutive_failures: u32,
    pub is_child: bool,
    pub parent: Option<Seq<char>>,
    pub vm_state: Option<Seq<char>>,
    pub is_child_vm: bool,
    pub parent_host: Option<Seq<char>>,
}

/// The characters of an optional text.
pub open spec fn text_of(s: Option<String>) -> Option<Seq<char>> {
    match s {
        Some(t) => Some(t@),
        None => None,
    }
}

impl View for Host {
    type V = HostView;

    open spec fn view(&self) -> HostView {
        HostView {
            id: self.id,
            name: self.name@,
            ip: self.ip@,
            status: self.status,
            open_ports: self.open_ports@,
            latency_ms: self.latency_ms,
            last_seen: self.last_seen,
            last_checked: self.last_checked,
            consecutive_failures: self.consecutive_failures,
            is_child: self.is_child,
            parent: text_of(self.parent),
            vm_state: text_of(self.vm_state),
            is_child_vm: self.is_child_vm,
            parent_host: text_of(self.parent_host),
        }
    }
}

/// The hosts of a vector as plain values.
pub open spec fn host_views(hosts: Seq<Host>) -> Seq<HostView> {
    hosts.map_values(|h: Host| h@)
}

/// A host of which nothing is known but its id, name and address.
pub open spec fn fresh_host(id: u64, name: Seq<char>, ip: Seq<char>) -> HostView {
    HostView {
        id,
        name,
        ip,
        status: HostStatus::Unknown,
        open_ports: seq![],
        latency_ms: None,
        last_seen: None,
        last_checked: None,
        consecutive_failures: 0,
        is_child: false,
        parent: None,
        vm_state: None,
        is_child_vm: false,
        parent_host: None,
    }
}

/// The text of the port column: at most six ports, then how many more there are.
pub open spec fn ports_text(ports: Seq<u16>) -> Seq<char> {
    if ports.len() == 0 {
        "—"@
    } else if ports.len() > 6 {
        joined_ports(ports.take(6), ","@) + "..+"@ + decimal((ports.len() - 6) as nat)
    } else {
        joined_ports(ports, ","@)
    }
}

/// The role that a set of open ports stands for, the most specific one first.
pub open spec fn role_of(ports: Seq<u16>) -> Seq<char> {
    if ports.contains(88) && ports.contains(389) {
        "DC"@
    } else if ports.contains(2179) {
        "Hyper-V"@
    } else if ports.contains(10123) {
        "SCCM"@
    } else if ports.contains(7001) {
        "NxWitness"@
    } else if ports.contains(9100) || ports.contains(631) {
        "Print"@
    } else if ports.contains(80) || ports.contains(443) {
        "Web"@
    } else if ports.contains(5985) {
        "WinRM"@
    } else if ports.contains(22) {
        "SSH"@
    } else {
        "—"@
    }
}

fn has_port(ports: &Vec<u16>, p: u16) -> (r: bool)
    ensures
        r == ports@.contains(p),
{
    for i in 0..ports.len()
        invariant
            forall|k: int| 0 <= k < i ==> ports@[k] != p,
    {
        if ports[i] == p {
            return true;
        }
    }
    false
}

impl Host {
    /// A host from its config entry, with the next id of `ids`.
    pub fn from_config(name: &str, ip: &str, ids: &mut HostIds) -> (r: Host)
        ensures
            r@ == fresh_host(old(ids).next, name@, ip@),
            final(ids).next == following_id(old(ids).next),
    {
        let r = Host {
            id: ids.take(),
            name: name.to_string(),
            ip: ip.to_string(),
            status: HostStatus::Unknown,
            open_ports: Vec::new(),
            latency_ms: None,
            last_seen: None,
            last_checked: None,
            consecutive_failures: 0,
            is_child: false,
            parent: None,
            vm_state: None,
            is_child_vm: false,
            parent_host: None,
        };
        assert(r@ =~= fresh_host(old(ids).next, name@, ip@));
        r
    }

    /// The open ports as the table shows them.
    pub fn ports_display(&self) -> (r: String)
        ensures
            r@ == ports_text(self.open_ports@),
    {
        let n: usize = self.open_ports.len();
        if n == 0 {
            "—".to_string()
        } else if n > 6 {
            let mut r = join_ports(&self.open_ports, 6, ",");
            r.append("..+");
            push_decimal(&mut r, (n - 6) as u64);
            r
        } else {
            assert(self.open_ports@.take(n as int) == self.open_ports@);
            join_ports(&self.open_ports, n, ",")
        }
    }

    /// Infers a role label from the set of open ports.
    pub fn role_label(&self) -> (r: &'static str)
        ensures
            r@ == role_of(self.open_ports@),
    {
        let ports = &self.open_ports;
        if has_port(ports, 88) && has_port(ports, 389) {
            "DC"
        } else if has_port(ports, 2179) {
            "Hyper-V"
        } else if has_port(ports, 10123) {
            "SCCM"
        } else if has_port(ports, 7001) {
            "NxWitness"
        } else if has_port(ports, 9100) || has_port(ports, 631) {
            "Print"
        } else if has_port(ports, 80) || has_port(ports, 443) {
            "Web"
        } else if has_port(ports, 5985) {
            "WinRM"
        } else if has_port(ports, 22) {
            // Low priority: only when nothing more specific matched.
            "SSH"
        } else {
            "—"
        }
    }
}

} // verus!
