//! A group of hosts, and the order in which its hosts are shown.

use crate::host::{host_views, Host, HostView};
use crate::text::{
    ascii_lower, before, eq_ignore_case, lower, precedes, same_ignoring_case, texts, texts_push,
};
use vstd::prelude::*;

verus! {

/// A named list of hosts.
#[derive(Debug)]
pub struct Group {
    pub name: String,
    pub hosts: Vec<Host>,
}

/// The first of the first `n` hosts with the given name, up to case.
pub open spec fn first_called(hosts: Seq<HostView>, name: Seq<char>, n: int) -> Option<int>
    decreases n,
{
    if n <= 0 {
        None
    } else {
        match first_called(hosts, name, n - 1) {
            Some(i) => Some(i),
            None => if same_ignoring_case(hosts[n - 1].name, name) {
                Some(n - 1)
            } else {
                None
            },
        }
    }
}

/// What is wrong with a reference to a parent.
pub enum BadParent {
    /// The host names itself.
    Own,
    /// No host of the group has the name.
    Missing,
    /// The parent has a parent.
    Nested,
}

/// What is wrong with the reference of the host at position `i`, if anything.
pub open spec fn bad_parent(hosts: Seq<HostView>, i: int) -> Option<BadParent> {
    match hosts[i].parent {
        None => None,
        Some(p) => if same_ignoring_case(p, hosts[i].name) {
            Some(BadParent::Own)
        } else {
            match first_called(hosts, p, hosts.len() as int) {
                None => Some(BadParent::Missing),
                Some(j) => if hosts[j].parent is Some {
                    Some(BadParent::Nested)
                } else {
                    None
                },
            }
        },
    }
}

/// A host without its reference.
pub open spec fn at_top(h: HostView) -> HostView {
    HostView { is_child: false, parent: None, ..h }
}

/// The hosts after the references of the first `n` have been checked, one after
/// the other: a host with a bad reference has lost it.
pub open spec fn checked(hosts: Seq<HostView>, n: int) -> Seq<HostView>
    decreases n,
{
    if n <= 0 {
        hosts
    } else {
        let so_far = checked(hosts, n - 1);
        if bad_parent(so_far, n - 1) is Some {
            so_far.update(n - 1, at_top(so_far[n - 1]))
        } else {
            so_far
        }
    }
}

/// The reason that a warning gives.
pub open spec fn reason_text(bad: BadParent, parent: Seq<char>, group: Seq<char>) -> Seq<char> {
    match bad {
        BadParent::Own => "cannot be its own parent"@,
        BadParent::Missing => "parent '"@ + parent + "' not found in group '"@ + group + "'"@,
        BadParent::Nested => "parent '"@ + parent
            + "' is itself a child (only one level of nesting is supported)"@,
    }
}

/// The warning about a bad reference.
pub open spec fn parent_warning(host: HostView, bad: BadParent, group: Seq<char>) -> Seq<char> {
    "host '"@ + host.name + "': "@ + reason_text(bad, host.parent->0, group)
        + "; showing at top level"@
}

/// The warnings about the references of the first `n` hosts.
pub open spec fn parent_warnings(hosts: Seq<HostView>, group: Seq<char>, n: int) -> Seq<Seq<char>>
    decreases n,
{
    if n <= 0 {
        seq![]
    } else {
        let so_far = checked(hosts, n - 1);
        match bad_parent(so_far, n - 1) {
            Some(bad) => parent_warnings(hosts, group, n - 1).push(
                parent_warning(so_far[n - 1], bad, group),
            ),
            None => parent_warnings(hosts, group, n - 1),
        }
    }
}

/// `a` is shown before `b`: by name, up to case.
pub open spec fn shown_before(a: HostView, b: HostView) -> bool {
    precedes(ascii_lower(a.name), ascii_lower(b.name))
}

/// `hosts`, which is in name order, with `h` put behind the hosts that it is not
/// shown before.
pub open spec fn put_by_name(hosts: Seq<HostView>, h: HostView) -> Seq<HostView>
    decreases hosts.len(),
{
    if hosts.len() > 0 && shown_before(h, hosts.last()) {
        put_by_name(hosts.drop_last(), h).push(hosts.last())
    } else {
        hosts.push(h)
    }
}

/// The hosts in name order; hosts with the same name keep their order.
pub open spec fn in_name_order(hosts: Seq<HostView>) -> Seq<HostView>
    decreases hosts.len(),
{
    if hosts.len() == 0 {
        hosts
    } else {
        put_by_name(in_name_order(hosts.drop_last()), hosts.last())
    }
}

/// The host's reference is to the given name.
pub open spec fn belongs_to(h: HostView, parent_name: Seq<char>) -> bool {
    h.parent matches Some(p) && same_ignoring_case(p, parent_name)
}

/// The top-level hosts, in order.
pub open spec fn top_hosts(hosts: Seq<HostView>) -> Seq<HostView> {
    hosts.filter(|h: HostView| !h.is_child)
}

/// The child hosts, in order.
pub open spec fn child_hosts(hosts: Seq<HostView>) -> Seq<HostView> {
    hosts.filter(|h: HostView| h.is_child)
}

/// Those of the children that belong to the parent with the given name.
pub open spec fn children_of(kids: Seq<HostView>, parent_name: Seq<char>) -> Seq<HostView> {
    kids.filter(|h: HostView| belongs_to(h, parent_name))
}

/// Those of the children that do not belong to the parent with the given name.
pub open spec fn others_than(kids: Seq<HostView>, parent_name: Seq<char>) -> Seq<HostView> {
    kids.filter(|h: HostView| !belongs_to(h, parent_name))
}

/// Each of the top-level hosts followed by its children, then the children that
/// belong to none of them.
pub open spec fn nested(tops: Seq<HostView>, kids: Seq<HostView>) -> Seq<HostView>
    decreases tops.len(),
{
    if tops.len() == 0 {
        kids
    } else {
        seq![tops[0]] + children_of(kids, tops[0].name) + nested(
            tops.drop_first(),
            others_than(kids, tops[0].name),
        )
    }
}

/// The order in which hosts are shown.
pub open spec fn arranged(hosts: Seq<HostView>) -> Seq<HostView> {
    nested(in_name_order(top_hosts(hosts)), in_name_order(child_hosts(hosts)))
}

/// The hosts of a group after their references have been checked and they have
/// been put in order.
pub open spec fn organised(hosts: Seq<HostView>) -> Seq<HostView> {
    arranged(checked(hosts, hosts.len() as int))
}

pub(crate) proof fn checked_len(hosts: Seq<HostView>, n: int)
    requires
        n <= hosts.len(),
    ensures
        checked(hosts, n).len() == hosts.len(),
    decreases n,
{
    if n > 0 {
        checked_len(hosts, n - 1);
    }
}

pub(crate) proof fn first_called_in_range(hosts: Seq<HostView>, name: Seq<char>, n: int)
    ensures
        match first_called(hosts, name, n) {
            Some(i) => 0 <= i < n && same_ignoring_case(hosts[i].name, name) && forall|k: int|
                0 <= k < i ==> !same_ignoring_case(#[trigger] hosts[k].name, name),
            None => forall|k: int|
                0 <= k < n ==> !same_ignoring_case(#[trigger] hosts[k].name, name),
        },
    decreases n,
{
    if n > 0 {
        first_called_in_range(hosts, name, n - 1);
    }
}

/// The position of the first host with the given name, up to case.
pub(crate) fn position_called(hosts: &Vec<Host>, name: &str) -> (r: Option<usize>)
    ensures
        match r {
            Some(i) => i < hosts.len() && first_called(
                host_views(hosts@),
                name@,
                hosts@.len() as int,
            ) == Some(i as int),
            None => first_called(host_views(hosts@), name@, hosts@.len() as int) is None,
        },
{
    let mut found: Option<usize> = None;
    for i in 0..hosts.len()
        invariant
            match found {
                Some(k) => k < i && first_called(host_views(hosts@), name@, i as int) == Some(
                    k as int,
                ),
                None => first_called(host_views(hosts@), name@, i as int) is None,
            },
    {
        assert(host_views(hosts@)[i as int] == hosts@[i as int]@);
        if found.is_none() && eq_ignore_case(hosts[i].name.as_str(), name) {
            found = Some(i);
        }
    }
    found
}

/// The reference check of the host at position `i`.
fn check_parent(hosts: &Vec<Host>, i: usize) -> (r: Option<BadParent>)
    requires
        i < hosts.len(),
    ensures
        r == bad_parent(host_views(hosts@), i as int),
{
    let ghost views = host_views(hosts@);
    assert(views[i as int] == hosts@[i as int]@);
    match &hosts[i].parent {
        None => None,
        Some(p) => {
            if eq_ignore_case(p.as_str(), hosts[i].name.as_str()) {
                Some(BadParent::Own)
            } else {
                match position_called(hosts, p.as_str()) {
                    None => Some(BadParent::Missing),
                    Some(j) => {
                        assert(views[j as int] == hosts@[j as int]@);
                        if hosts[j].parent.is_some() {
                            Some(BadParent::Nested)
                        } else {
                            None
                        }
                    },
                }
            }
        },
    }
}

/// The warning about the bad reference of a host.
fn warn_parent(host: &Host, bad: BadParent, group: &str) -> (r: String)
    requires
        host.parent is Some,
    ensures
        r@ == parent_warning(host@, bad, group@),
{
    let mut reason = String::new();
    let parent = match &host.parent {
        Some(p) => p.clone(),
        None => String::new(),
    };
    match bad {
        BadParent::Own => {
            reason = "cannot be its own parent".to_string();
        },
        BadParent::Missing => {
            reason = "parent '".to_string();
            reason.append(parent.as_str());
            reason.append("' not found in group '");
            reason.append(group);
            reason.append("'");
        },
        BadParent::Nested => {
            reason = "parent '".to_string();
            reason.append(parent.as_str());
            reason.append("' is itself a child (only one level of nesting is supported)");
        },
    }
    let mut w = "host '".to_string();
    w.append(host.name.as_str());
    w.append("': ");
    w.append(reason.as_str());
    w.append("; showing at top level");
    w
}

/// Puts a host into a vector in name order.
fn insert_by_name(hosts: &mut Vec<Host>, h: Host)
    ensures
        host_views(final(hosts)@) == put_by_name(host_views(old(hosts)@), h@),
{
    let ghost all = host_views(hosts@);
    let key = lower(h.name.as_str());
    let mut at: usize = hosts.len();
    assert(all.take(at as int) == all);
    assert(all.skip(at as int) =~= seq![]);
    assert(put_by_name(all, h@) =~= put_by_name(all.take(at as int), h@) + all.skip(at as int));
    while at > 0 && before(key.as_str(), lower(hosts[at - 1].name.as_str()).as_str())
        invariant
            at <= hosts.len(),
            all == host_views(hosts@),
            hosts@ == old(hosts)@,
            key@ == ascii_lower(h@.name),
            put_by_name(all, h@) == put_by_name(all.take(at as int), h@) + all.skip(at as int),
        decreases at,
    {
        let ghost head = all.take(at as int);
        assert(all[at - 1] == hosts@[at - 1]@);
        assert(head.drop_last() == all.take(at - 1));
        assert(seq![head.last()] + all.skip(at as int) =~= all.skip(at - 1));
        assert(put_by_name(head.drop_last(), h@).push(head.last()) + all.skip(at as int)
            =~= put_by_name(head.drop_last(), h@) + all.skip(at - 1));
        at = at - 1;
    }
    proof {
        if at > 0 {
            assert(all[at - 1] == hosts@[at - 1]@);
            assert(all.take(at as int).last() == all[at - 1]);
        }
        assert(put_by_name(all.take(at as int), h@) == all.take(at as int).push(h@));
    }
    hosts.insert(at, h);
    assert(host_views(hosts@) =~= all.take(at as int).push(h@) + all.skip(at as int));
}

/// The hosts in name order.
fn sort_by_name(hosts: Vec<Host>) -> (r: Vec<Host>)
    ensures
        host_views(r@) == in_name_order(host_views(hosts@)),
{
    let ghost all = host_views(hosts@);
    let ghost given = hosts@;
    let mut sorted: Vec<Host> = Vec::new();
    assert(host_views(sorted@) =~= in_name_order(all.take(0)));
    for h in it: hosts
        invariant
            it.seq() == given,
            all == host_views(given),
            host_views(sorted@) == in_name_order(all.take(it.index())),
    {
        assert(all.take(it.index() + 1).drop_last() == all.take(it.index()));
        assert(all[it.index()] == given[it.index()]@);
        insert_by_name(&mut sorted, h);
    }
    assert(all.take(given.len() as int) == all);
    sorted
}

/// `filter` over one more element.
pub(crate) proof fn filter_take_next(s: Seq<HostView>, p: spec_fn(HostView) -> bool, i: int)
    requires
        0 <= i < s.len(),
    ensures
        s.take(i + 1).filter(p) == if p(s[i]) {
            s.take(i).filter(p).push(s[i])
        } else {
            s.take(i).filter(p)
        },
{
    reveal(Seq::filter);
    assert(s.take(i + 1).drop_last() == s.take(i));
}

/// The top-level hosts and the children, each in order.
fn split_children(hosts: Vec<Host>) -> (r: (Vec<Host>, Vec<Host>))
    ensures
        host_views(r.0@) == top_hosts(host_views(hosts@)),
        host_views(r.1@) == child_hosts(host_views(hosts@)),
{
    let ghost all = host_views(hosts@);
    let ghost given = hosts@;
    let mut tops: Vec<Host> = Vec::new();
    let mut kids: Vec<Host> = Vec::new();
    proof {
        reveal(Seq::filter);
        assert(host_views(tops@) =~= top_hosts(all.take(0)));
        assert(host_views(kids@) =~= child_hosts(all.take(0)));
    }
    for h in it: hosts
        invariant
            it.seq() == given,
            all == host_views(given),
            host_views(tops@) == top_hosts(all.take(it.index())),
            host_views(kids@) == child_hosts(all.take(it.index())),
    {
        proof {
            assert(all[it.index()] == given[it.index()]@);
            filter_take_next(all, |h: HostView| !h.is_child, it.index());
            filter_take_next(all, |h: HostView| h.is_child, it.index());
            assert(host_views(tops@.push(h)) =~= host_views(tops@).push(h@));
            assert(host_views(kids@.push(h)) =~= host_views(kids@).push(h@));
        }
        if h.is_child {
            kids.push(h);
        } else {
            tops.push(h);
        }
    }
    assert(all.take(given.len() as int) == all);
    (tops, kids)
}

/// The children of the parent with the given name and the others, each in order.
fn split_by_parent(hosts: Vec<Host>, parent_name: &str) -> (r: (Vec<Host>, Vec<Host>))
    ensures
        host_views(r.0@) == children_of(host_views(hosts@), parent_name@),
        host_views(r.1@) == others_than(host_views(hosts@), parent_name@),
{
    let ghost all = host_views(hosts@);
    let ghost given = hosts@;
    let mut mine: Vec<Host> = Vec::new();
    let mut rest: Vec<Host> = Vec::new();
    proof {
        reveal(Seq::filter);
        assert(host_views(mine@) =~= children_of(all.take(0), parent_name@));
        assert(host_views(rest@) =~= others_than(all.take(0), parent_name@));
    }
    for h in it: hosts
        invariant
            it.seq() == given,
            all == host_views(given),
            host_views(mine@) == children_of(all.take(it.index()), parent_name@),
            host_views(rest@) == others_than(all.take(it.index()), parent_name@),
    {
        proof {
            assert(all[it.index()] == given[it.index()]@);
            filter_take_next(all, |h: HostView| belongs_to(h, parent_name@), it.index());
            filter_take_next(all, |h: HostView| !belongs_to(h, parent_name@), it.index());
            assert(host_views(mine@.push(h)) =~= host_views(mine@).push(h@));
            assert(host_views(rest@.push(h)) =~= host_views(rest@).push(h@));
        }
        let is_mine = match &h.parent {
            Some(p) => eq_ignore_case(p.as_str(), parent_name),
            None => false,
        };
        if is_mine {
            mine.push(h);
        } else {
            rest.push(h);
        }
    }
    assert(all.take(given.len() as int) == all);
    (mine, rest)
}

/// Each of the top-level hosts followed by its children, then the children that
/// belong to none of them.
fn nest(tops: Vec<Host>, kids: Vec<Host>) -> (r: Vec<Host>)
    ensures
        host_views(r@) == nested(host_views(tops@), host_views(kids@)),
{
    let ghost all = host_views(tops@);
    let ghost given = tops@;
    let ghost goal = nested(host_views(tops@), host_views(kids@));
    let mut kids = kids;
    let mut ordered: Vec<Host> = Vec::new();
    assert(all.skip(0) == all);
    assert(host_views(ordered@) =~= seq![]);
    assert(goal =~= host_views(ordered@) + nested(all.skip(0), host_views(kids@)));
    for parent in it: tops
        invariant
            it.seq() == given,
            all == host_views(given),
            goal == host_views(ordered@) + nested(all.skip(it.index()), host_views(kids@)),
    {
        let ghost i = it.index();
        let ghost done = host_views(ordered@);
        let ghost left = host_views(kids@);
        assert(all[i] == given[i]@);
        assert(all.skip(i)[0] == all[i]);
        assert(all.skip(i).drop_first() == all.skip(i + 1));
        let name = parent.name.clone();
        let (mut mine, rest) = split_by_parent(kids, name.as_str());
        let ghost own = host_views(mine@);
        ordered.push(parent);
        assert(host_views(ordered@) =~= done.push(all[i]));
        ordered.append(&mut mine);
        kids = rest;
        assert(host_views(ordered@) =~= done.push(all[i]) + own);
        assert(done + nested(all.skip(i), left) =~= done.push(all[i]) + own + nested(
            all.skip(i + 1),
            host_views(kids@),
        ));
    }
    assert(all.skip(given.len() as int) =~= seq![]);
    let ghost done = host_views(ordered@);
    let ghost left = host_views(kids@);
    ordered.append(&mut kids);
    assert(host_views(ordered@) =~= done + left);
    ordered
}

impl Group {
    /// Validates parent references and orders hosts so each child sits directly
    /// beneath its parent, regardless of config order. Only one level of
    /// nesting is supported. Returns human-readable warnings for invalid
    /// references; offending hosts fall back to top-level display.
    pub fn organise(&mut self) -> (r: Vec<String>)
        ensures
            final(self).name == old(self).name,
            host_views(final(self).hosts@) == organised(host_views(old(self).hosts@)),
            texts(r@) == parent_warnings(
                host_views(old(self).hosts@),
                old(self).name@,
                old(self).hosts@.len() as int,
            ),
    {
        let ghost given = host_views(self.hosts@);
        let mut warnings: Vec<String> = Vec::new();
        assert(texts(warnings@) =~= seq![]);
        let n: usize = self.hosts.len();
        for i in 0..n
            invariant
                n == given.len(),
                n == self.hosts.len(),
                self.name == old(self).name,
                host_views(self.hosts@) == checked(given, i as int),
                texts(warnings@) == parent_warnings(given, self.name@, i as int),
        {
            assert(host_views(self.hosts@)[i as int] == self.hosts@[i as int]@);
            if let Some(bad) = check_parent(&self.hosts, i) {
                let ghost hosts = self.hosts@;
                let w = warn_parent(&self.hosts[i], bad, self.name.as_str());
                proof {
                    texts_push(warnings@, w);
                }
                warnings.push(w);
                self.hosts[i].is_child = false;
                self.hosts[i].parent = None;
                assert(host_views(self.hosts@) =~= host_views(hosts).update(
                    i as int,
                    at_top(host_views(hosts)[i as int]),
                ));
            }
        }
        let mut hosts: Vec<Host> = Vec::new();
        std::mem::swap(&mut hosts, &mut self.hosts);
        let (tops, kids) = split_children(hosts);
        let tops = sort_by_name(tops);
        let kids = sort_by_name(kids);
        self.hosts = nest(tops, kids);
        warnings
    }
}

} // verus!
