//! The configuration: settings, groups and hosts, and what is doubtful in it.

use crate::text::{ascii_lower, lower, same, texts, texts_add, texts_push, trim, trimmed};
use vstd::prelude::*;

verus! {

/// The whole configuration.
#[derive(Debug)]
pub struct Config {
    pub settings: Settings,
    pub group: Vec<GroupConfig>,
}

/// Settings that hold for all hosts.
#[derive(Debug)]
pub struct Settings {
    /// Seconds between automatic rescans.
    pub poll_interval: u64,
    /// Milliseconds that one TCP connect may take.
    pub connect_timeout_ms: u64,
    /// Maximum number of TCP connect attempts in flight at once, across all
    /// hosts and ports. Caps the burst of simultaneous connections so a single
    /// scan does not overwhelm a constrained link. Lower it on a flaky VPN;
    /// raise it on a fast LAN for quicker scans.
    pub max_concurrent_probes: usize,
    /// TCP ports probed on every host, for both liveness and role detection.
    /// When unset, a built-in default list is used.
    pub ports: Option<Vec<u16>>,
    /// Tab to open on at startup: a group name or "All". A remembered last tab
    /// takes precedence over this. When unset, opens "All".
    pub default_tab: Option<String>,
}

/// Seconds between rescans where the configuration gives none.
pub fn default_poll() -> (r: u64)
    ensures
        r == 30,
{
    30
}

/// Milliseconds per connect where the configuration gives none.
pub fn default_timeout() -> (r: u64)
    ensures
        r == 2000,
{
    2000
}

/// Connects in flight where the configuration gives no limit.
pub fn default_max_concurrent_probes() -> (r: usize)
    ensures
        r == 64,
{
    64
}

/// A named list of hosts.
#[derive(Debug)]
pub struct GroupConfig {
    pub name: String,
    pub hosts: Vec<HostConfig>,
}

/// A host as the configuration lists it.
#[derive(Debug, Clone)]
pub struct HostConfig {
    pub name: String,
    pub ip: String,
    /// Name of another host this one sits under. Purely cosmetic: displays
    /// this host indented beneath its parent in the table.
    pub parent: Option<String>,
}

/// The form in which the names of one group are compared.
pub open spec fn name_key(h: HostConfig) -> Seq<char> {
    ascii_lower(trimmed(h.name@))
}

/// The first of the first `n` hosts whose name has the given key.
pub open spec fn first_named(hosts: Seq<HostConfig>, key: Seq<char>, n: int) -> Option<int>
    decreases n,
{
    if n <= 0 {
        None
    } else {
        match first_named(hosts, key, n - 1) {
            Some(i) => Some(i),
            None => if name_key(hosts[n - 1]) == key {
                Some(n - 1)
            } else {
                None
            },
        }
    }
}

/// The warning about a name that an earlier host of the group has.
pub open spec fn name_warning(group: Seq<char>, name: Seq<char>, first: Seq<char>) -> Seq<char> {
    "group '"@ + group + "': duplicate host name '"@ + name + "' (already defined as '"@ + first
        + "')"@
}

/// The warnings about the names of the first `n` hosts of a group.
pub open spec fn name_warnings(group: GroupConfig, n: int) -> Seq<Seq<char>>
    decreases n,
{
    if n <= 0 {
        seq![]
    } else {
        let host = group.hosts@[n - 1];
        match first_named(group.hosts@, name_key(host), n - 1) {
            Some(i) => name_warnings(group, n - 1).push(
                name_warning(group.name@, host.name@, group.hosts@[i].name@),
            ),
            None => name_warnings(group, n - 1),
        }
    }
}

/// The warnings about names, group by group, for the first `n` groups.
pub open spec fn all_name_warnings(groups: Seq<GroupConfig>, n: int) -> Seq<Seq<char>>
    decreases n,
{
    if n <= 0 {
        seq![]
    } else {
        all_name_warnings(groups, n - 1) + name_warnings(
            groups[n - 1],
            groups[n - 1].hosts@.len() as int,
        )
    }
}

/// A host of the configuration with its trimmed address and its group's name.
#[verifier::ext_equal]
pub struct Listing {
    pub name: Seq<char>,
    pub ip: Seq<char>,
    pub group: Seq<char>,
}

/// The host at position `i` of a group.
pub open spec fn listing(group: GroupConfig, i: int) -> Listing {
    Listing { name: group.hosts@[i].name@, ip: trimmed(group.hosts@[i].ip@), group: group.name@ }
}

/// The hosts of the first `n` groups, in order.
pub open spec fn listings(groups: Seq<GroupConfig>, n: int) -> Seq<Listing>
    decreases n,
{
    if n <= 0 {
        seq![]
    } else {
        listings(groups, n - 1) + Seq::new(
            groups[n - 1].hosts@.len(),
            |i: int| listing(groups[n - 1], i),
        )
    }
}

/// The first of the first `n` listed hosts with the given address.
pub open spec fn first_at(list: Seq<Listing>, ip: Seq<char>, n: int) -> Option<int>
    decreases n,
{
    if n <= 0 {
        None
    } else {
        match first_at(list, ip, n - 1) {
            Some(i) => Some(i),
            None => if list[n - 1].ip == ip {
                Some(n - 1)
            } else {
                None
            },
        }
    }
}

/// The warning about an address that an earlier host has.
pub open spec fn ip_warning(host: Listing, first: Listing) -> Seq<char> {
    "duplicate IP "@ + host.ip + ": '"@ + host.name + "' in group '"@ + host.group
        + "' (already used by '"@ + first.name + "' in group '"@ + first.group + "')"@
}

/// The warnings about the addresses of the first `n` listed hosts. A blank
/// address is no address.
pub open spec fn ip_warnings(list: Seq<Listing>, n: int) -> Seq<Seq<char>>
    decreases n,
{
    if n <= 0 {
        seq![]
    } else if list[n - 1].ip.len() == 0 {
        ip_warnings(list, n - 1)
    } else {
        match first_at(list, list[n - 1].ip, n - 1) {
            Some(i) => ip_warnings(list, n - 1).push(ip_warning(list[n - 1], list[i])),
            None => ip_warnings(list, n - 1),
        }
    }
}

impl Config {
    /// All hosts of the configuration, in order.
    pub open spec fn listed(self) -> Seq<Listing> {
        listings(self.group@, self.group@.len() as int)
    }

    /// The warnings about this configuration: names first, then addresses.
    pub open spec fn warnings(self) -> Seq<Seq<char>> {
        all_name_warnings(self.group@, self.group@.len() as int) + ip_warnings(
            self.listed(),
            self.listed().len() as int,
        )
    }

    /// No group has two hosts with the same name, up to case and outer space.
    pub open spec fn names_are_distinct(self) -> bool {
        forall|g: int, i: int, j: int|
            0 <= g < self.group@.len() && 0 <= i < j < self.group@[g].hosts@.len() ==> name_key(
                #[trigger] self.group@[g].hosts@[i],
            ) != name_key(#[trigger] self.group@[g].hosts@[j])
    }

    /// No two hosts have the same address, up to outer space.
    pub open spec fn ips_are_distinct(self) -> bool {
        forall|i: int, j: int|
            0 <= i < j < self.listed().len() && self.listed()[j].ip.len() > 0 ==> (
            #[trigger] self.listed()[i]).ip != (#[trigger] self.listed()[j]).ip
    }

    /// Checks for duplicate host names within a group and duplicate IPs across
    /// the whole configuration. Returns human-readable warnings; duplicate hosts
    /// are kept and still monitored.
    pub fn validate(&self) -> (r: Vec<String>)
        ensures
            texts(r@) == self.warnings(),
    {
        let mut warnings = self.duplicate_names();
        let mut ips = self.duplicate_ips();
        proof {
            texts_add(warnings@, ips@);
        }
        warnings.append(&mut ips);
        warnings
    }

    /// The warnings about duplicate names, which make parent references ambiguous.
    /// The same name in different groups is fine.
    fn duplicate_names(&self) -> (r: Vec<String>)
        ensures
            texts(r@) == all_name_warnings(self.group@, self.group@.len() as int),
    {
        let mut warnings: Vec<String> = Vec::new();
        assert(texts(warnings@) =~= seq![]);
        for g in 0..self.group.len()
            invariant
                texts(warnings@) == all_name_warnings(self.group@, g as int),
        {
            let mut found = duplicate_names_in(&self.group[g]);
            proof {
                texts_add(warnings@, found@);
            }
            warnings.append(&mut found);
        }
        warnings
    }

    /// The warnings about duplicate addresses: the same machine would be probed
    /// more than once.
    fn duplicate_ips(&self) -> (r: Vec<String>)
        ensures
            texts(r@) == ip_warnings(self.listed(), self.listed().len() as int),
    {
        let list = self.list();
        let ghost views = list_views(list@);
        let mut warnings: Vec<String> = Vec::new();
        assert(texts(warnings@) =~= seq![]);
        for n in 0..list.len()
            invariant
                views == list_views(list@),
                texts(warnings@) == ip_warnings(views, n as int),
        {
            let host = &list[n];
            assert(views[n as int] == list@[n as int]@);
            if !host.ip.as_str().is_empty() {
                let mut first: Option<usize> = None;
                for i in 0..n
                    invariant
                        n < list.len(),
                        views == list_views(list@),
                        host == list@[n as int],
                        match first {
                            Some(k) => k < i && first_at(views, host.ip@, i as int) == Some(
                                k as int,
                            ),
                            None => first_at(views, host.ip@, i as int) is None,
                        },
                {
                    assert(views[i as int] == list@[i as int]@);
                    if first.is_none() && same(list[i].ip.as_str(), host.ip.as_str()) {
                        first = Some(i);
                    }
                }
                if let Some(i) = first {
                    assert(views[i as int] == list@[i as int]@);
                    let earlier = &list[i];
                    let mut w = "duplicate IP ".to_string();
                    w.append(host.ip.as_str());
                    w.append(": '");
                    w.append(host.name.as_str());
                    w.append("' in group '");
                    w.append(host.group.as_str());
                    w.append("' (already used by '");
                    w.append(earlier.name.as_str());
                    w.append("' in group '");
                    w.append(earlier.group.as_str());
                    w.append("')");
                    proof {
                        texts_push(warnings@, w);
                    }
                    warnings.push(w);
                }
            }
        }
        warnings
    }

    /// All hosts with their trimmed addresses and group names.
    fn list(&self) -> (r: Vec<Listed>)
        ensures
            list_views(r@) == self.listed(),
    {
        let mut list: Vec<Listed> = Vec::new();
        assert(list_views(list@) =~= seq![]);
        for g in 0..self.group.len()
            invariant
                list_views(list@) == listings(self.group@, g as int),
        {
            let group = &self.group[g];
            let ghost before = listings(self.group@, g as int);
            for i in 0..group.hosts.len()
                invariant
                    group == self.group@[g as int],
                    list_views(list@) == before + Seq::new(
                        i as nat,
                        |k: int| listing(*group, k),
                    ),
            {
                let host = &group.hosts[i];
                let entry = Listed {
                    name: host.name.clone(),
                    ip: trim(host.ip.as_str()),
                    group: group.name.clone(),
                };
                assert(list_views(list@.push(entry)) =~= list_views(list@).push(entry@));
                assert(entry@ =~= listing(*group, i as int));
                list.push(entry);
                assert(list_views(list@) =~= before + Seq::new(
                    (i + 1) as nat,
                    |k: int| listing(*group, k),
                ));
            }
            assert(list_views(list@) =~= listings(self.group@, g + 1));
        }
        list
    }
}

struct Listed {
    name: String,
    ip: String,
    group: String,
}

impl View for Listed {
    type V = Listing;

    closed spec fn view(&self) -> Listing {
        Listing { name: self.name@, ip: self.ip@, group: self.group@ }
    }
}

spec fn list_views(list: Seq<Listed>) -> Seq<Listing> {
    list.map_values(|l: Listed| l@)
}

/// The warnings about the names of one group.
fn duplicate_names_in(group: &GroupConfig) -> (r: Vec<String>)
    ensures
        texts(r@) == name_warnings(*group, group.hosts@.len() as int),
{
    let mut warnings: Vec<String> = Vec::new();
    assert(texts(warnings@) =~= seq![]);
    for n in 0..group.hosts.len()
        invariant
            texts(warnings@) == name_warnings(*group, n as int),
    {
        let host = &group.hosts[n];
        let key = lower(trim(host.name.as_str()).as_str());
        let mut first: Option<usize> = None;
        for i in 0..n
            invariant
                n < group.hosts.len(),
                key@ == name_key(group.hosts@[n as int]),
                match first {
                    Some(k) => k < i && first_named(group.hosts@, key@, i as int) == Some(
                        k as int,
                    ),
                    None => first_named(group.hosts@, key@, i as int) is None,
                },
        {
            let other = lower(trim(group.hosts[i].name.as_str()).as_str());
            if first.is_none() && same(other.as_str(), key.as_str()) {
                first = Some(i);
            }
        }
        if let Some(i) = first {
            let mut w = "group '".to_string();
            w.append(group.name.as_str());
            w.append("': duplicate host name '");
            w.append(host.name.as_str());
            w.append("' (already defined as '");
            w.append(group.hosts[i].name.as_str());
            w.append("')");
            proof {
                texts_push(warnings@, w);
            }
            warnings.push(w);
        }
    }
    warnings
}

/// `first_named` finds the least position with the key, if there is one.
pub(crate) proof fn first_named_is_least(hosts: Seq<HostConfig>, key: Seq<char>, n: int)
    ensures
        match first_named(hosts, key, n) {
            Some(i) => 0 <= i < n && name_key(hosts[i]) == key && forall|k: int|
                0 <= k < i ==> name_key(#[trigger] hosts[k]) != key,
            None => forall|k: int| 0 <= k < n ==> name_key(#[trigger] hosts[k]) != key,
        },
    decreases n,
{
    if n > 0 {
        first_named_is_least(hosts, key, n - 1);
    }
}

/// `first_at` finds the least position with the address, if there is one.
pub(crate) proof fn first_at_is_least(list: Seq<Listing>, ip: Seq<char>, n: int)
    ensures
        match first_at(list, ip, n) {
            Some(i) => 0 <= i < n && list[i].ip == ip && forall|k: int|
                0 <= k < i ==> (#[trigger] list[k]).ip != ip,
            None => forall|k: int| 0 <= k < n ==> (#[trigger] list[k]).ip != ip,
        },
    decreases n,
{
    if n > 0 {
        first_at_is_least(list, ip, n - 1);
    }
}

proof fn no_name_warnings_iff_distinct(group: GroupConfig, n: int)
    requires
        n <= group.hosts@.len(),
    ensures
        name_warnings(group, n).len() == 0 <==> forall|i: int, j: int|
            0 <= i < j < n ==> name_key(#[trigger] group.hosts@[i]) != name_key(
                #[trigger] group.hosts@[j],
            ),
    decreases n,
{
    if n > 0 {
        no_name_warnings_iff_distinct(group, n - 1);
        first_named_is_least(group.hosts@, name_key(group.hosts@[n - 1]), n - 1);
    }
}

pub(crate) proof fn no_name_warnings_in_groups(groups: Seq<GroupConfig>, n: int)
    requires
        n <= groups.len(),
    ensures
        all_name_warnings(groups, n).len() == 0 <==> forall|g: int, i: int, j: int|
            0 <= g < n && 0 <= i < j < groups[g].hosts@.len() ==> name_key(
                #[trigger] groups[g].hosts@[i],
            ) != name_key(#[trigger] groups[g].hosts@[j]),
    decreases n,
{
    if n > 0 {
        no_name_warnings_in_groups(groups, n - 1);
        no_name_warnings_iff_distinct(groups[n - 1], groups[n - 1].hosts@.len() as int);
    }
}

pub(crate) proof fn no_ip_warnings_iff_distinct(list: Seq<Listing>, n: int)
    requires
        n <= list.len(),
    ensures
        ip_warnings(list, n).len() == 0 <==> forall|i: int, j: int|
            0 <= i < j < n && list[j].ip.len() > 0 ==> (#[trigger] list[i]).ip != (
            #[trigger] list[j]).ip,
    decreases n,
{
    if n > 0 {
        no_ip_warnings_iff_distinct(list, n - 1);
        first_at_is_least(list, list[n - 1].ip, n - 1);
    }
}

/// A configuration draws no warning exactly when no group repeats a name and no
/// address is used twice.
pub proof fn no_warnings_iff_no_duplicates(config: Config)
    ensures
        config.warnings().len() == 0 <==> config.names_are_distinct()
            && config.ips_are_distinct(),
{
    no_name_warnings_in_groups(config.group@, config.group@.len() as int);
    no_ip_warnings_iff_distinct(config.listed(), config.listed().len() as int);
}

} // verus!
