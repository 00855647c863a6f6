//! Laws of the order in which the hosts of a group are shown.

use crate::group::{
    arranged, at_top, bad_parent, belongs_to, checked, child_hosts, children_of,
    first_called, first_called_in_range, in_name_order, nested, organised, others_than,
    parent_warnings, put_by_name, shown_before, top_hosts,
};
use crate::host::HostView;
use crate::text::{ascii_lower, precedes, same_ignoring_case};
use vstd::multiset::Multiset;
use vstd::prelude::*;
use vstd::seq_lib::*;

verus! {

// ── The order by name ────────────────────────────────────────────────────

proof fn precedes_irreflexive(a: Seq<char>)
    ensures
        !precedes(a, a),
    decreases a.len(),
{
    if a.len() > 0 {
        precedes_irreflexive(a.drop_first());
    }
}

proof fn precedes_transitive(a: Seq<char>, b: Seq<char>, c: Seq<char>)
    requires
        precedes(a, b),
        precedes(b, c),
    ensures
        precedes(a, c),
    decreases c.len(),
{
    if a.len() > 0 && a[0] == b[0] && b[0] == c[0] {
        precedes_transitive(a.drop_first(), b.drop_first(), c.drop_first());
    }
}

proof fn precedes_total(a: Seq<char>, b: Seq<char>)
    ensures
        precedes(a, b) || precedes(b, a) || a == b,
    decreases a.len() + b.len(),
{
    if a.len() > 0 && b.len() > 0 {
        precedes_total(a.drop_first(), b.drop_first());
        if a[0] == b[0] && a.drop_first() == b.drop_first() {
            assert(a =~= seq![a[0]] + a.drop_first());
            assert(b =~= seq![b[0]] + b.drop_first());
        }
    } else if a.len() == 0 && b.len() == 0 {
        assert(a =~= b);
    }
}

/// The order by name is a strict order in which only hosts with the same name,
/// up to case, are not ordered.
pub proof fn name_order_is_total(a: HostView, b: HostView, c: HostView)
    ensures
        !shown_before(a, a),
        shown_before(a, b) ==> !shown_before(b, a),
        shown_before(a, b) && shown_before(b, c) ==> shown_before(a, c),
        shown_before(a, b) || shown_before(b, a) || same_ignoring_case(a.name, b.name),
        !shown_before(b, a) && !shown_before(c, b) ==> !shown_before(c, a),
{
    let x = ascii_lower(a.name);
    let y = ascii_lower(b.name);
    let z = ascii_lower(c.name);
    precedes_irreflexive(x);
    precedes_irreflexive(y);
    precedes_total(x, y);
    precedes_total(y, z);
    precedes_total(x, z);
    if precedes(x, y) && precedes(y, x) {
        precedes_transitive(x, y, x);
    }
    if precedes(x, y) && precedes(y, z) {
        precedes_transitive(x, y, z);
    }
    if precedes(z, x) && precedes(x, y) {
        precedes_transitive(z, x, y);
    }
}

/// No host stands behind one that it is shown before.
pub open spec fn is_in_name_order(s: Seq<HostView>) -> bool {
    forall|i: int, j: int| 0 <= i < j < s.len() ==> !shown_before(#[trigger] s[j], #[trigger] s[i])
}

proof fn put_keeps_order(s: Seq<HostView>, h: HostView)
    requires
        is_in_name_order(s),
    ensures
        is_in_name_order(put_by_name(s, h)),
        put_by_name(s, h).to_multiset() == s.to_multiset().insert(h),
        forall|x: HostView|
            put_by_name(s, h).contains(x) ==> x == h || #[trigger] s.contains(x),
    decreases s.len(),
{
    broadcast use group_to_multiset_ensures;

    let r = put_by_name(s, h);
    if s.len() > 0 && shown_before(h, s.last()) {
        let front = put_by_name(s.drop_last(), h);
        put_keeps_order(s.drop_last(), h);
        assert(s =~= s.drop_last().push(s.last()));
        assert(r.to_multiset() =~= s.to_multiset().insert(h));
        assert forall|i: int, j: int| 0 <= i < j < r.len() implies !shown_before(
            #[trigger] r[j],
            #[trigger] r[i],
        ) by {
            if j == r.len() - 1 {
                assert(front.contains(r[i]));
                name_order_is_total(h, s.last(), h);
                if r[i] != h {
                    assert(s.drop_last().contains(r[i]));
                    let k = choose|k: int| 0 <= k < s.len() - 1 && s.drop_last()[k] == r[i];
                    assert(s[k] == r[i]);
                }
            } else {
                assert(r[i] == front[i] && r[j] == front[j]);
            }
        }
        assert forall|x: HostView| r.contains(x) implies x == h || #[trigger] s.contains(x) by {
            let k = choose|k: int| 0 <= k < r.len() && r[k] == x;
            if k < r.len() - 1 {
                assert(front[k] == x);
                assert(front.contains(x));
                if x != h {
                    assert(s.drop_last().contains(x));
                    let m = choose|m: int| 0 <= m < s.len() - 1 && s.drop_last()[m] == x;
                    assert(s[m] == x);
                }
            } else {
                assert(s[s.len() - 1] == x);
            }
        }
    } else {
        assert forall|i: int, j: int| 0 <= i < j < r.len() implies !shown_before(
            #[trigger] r[j],
            #[trigger] r[i],
        ) by {
            if j == r.len() - 1 {
                if i < s.len() - 1 {
                    assert(!shown_before(s[s.len() - 1], s[i]));
                    name_order_is_total(s[i], s.last(), h);
                }
            } else {
                assert(r[i] == s[i] && r[j] == s[j]);
            }
        }
        assert forall|x: HostView| r.contains(x) implies x == h || #[trigger] s.contains(x) by {
            let k = choose|k: int| 0 <= k < r.len() && r[k] == x;
            if k < s.len() {
                assert(s[k] == x);
            }
        }
    }
}

/// Sorting by name puts hosts in name order, and adds and drops none.
pub proof fn sorting_orders_and_keeps(s: Seq<HostView>)
    ensures
        is_in_name_order(in_name_order(s)),
        in_name_order(s).to_multiset() == s.to_multiset(),
    decreases s.len(),
{
    broadcast use group_to_multiset_ensures;

    if s.len() > 0 {
        sorting_orders_and_keeps(s.drop_last());
        put_keeps_order(in_name_order(s.drop_last()), s.last());
        assert(s =~= s.drop_last().push(s.last()));
    }
}

/// The hosts with the given name, up to case, in order.
pub open spec fn namesakes(s: Seq<HostView>, name: Seq<char>) -> Seq<HostView> {
    s.filter(|h: HostView| same_ignoring_case(h.name, name))
}

proof fn put_keeps_namesakes(s: Seq<HostView>, h: HostView, name: Seq<char>)
    requires
        is_in_name_order(s),
    ensures
        namesakes(put_by_name(s, h), name) == namesakes(s.push(h), name),
    decreases s.len(),
{
    if s.len() > 0 && shown_before(h, s.last()) {
        let same_name = |x: HostView| same_ignoring_case(x.name, name);
        let front = s.drop_last();
        put_keeps_namesakes(front, h, name);
        precedes_irreflexive(ascii_lower(name));
        assert(s == front.push(s.last()));
        s.lemma_filter_push(h, same_name);
        front.lemma_filter_push(h, same_name);
        front.lemma_filter_push(s.last(), same_name);
        put_by_name(front, h).lemma_filter_push(s.last(), same_name);
    }
}

/// Sorting by name keeps hosts with the same name, up to case, in their order.
pub proof fn sorting_is_stable(s: Seq<HostView>, name: Seq<char>)
    ensures
        namesakes(in_name_order(s), name) == namesakes(s, name),
    decreases s.len(),
{
    if s.len() > 0 {
        reveal(Seq::filter);
        sorting_is_stable(s.drop_last(), name);
        sorting_orders_and_keeps(s.drop_last());
        let front = in_name_order(s.drop_last());
        put_keeps_namesakes(front, s.last(), name);
        assert(front.push(s.last()).drop_last() == front);
    }
}

// ── Parts of a sequence ──────────────────────────────────────────────────

proof fn filter_splits(s: Seq<HostView>, p: spec_fn(HostView) -> bool, q: spec_fn(HostView) -> bool)
    requires
        forall|h: HostView| #[trigger] q(h) == !p(h),
    ensures
        s.filter(p).to_multiset().add(s.filter(q).to_multiset()) == s.to_multiset(),
    decreases s.len(),
{
    broadcast use group_to_multiset_ensures;

    reveal(Seq::filter);
    if s.len() > 0 {
        filter_splits(s.drop_last(), p, q);
        assert(s =~= s.drop_last().push(s.last()));
        assert(q(s.last()) == !p(s.last()));
        assert(s.filter(p).to_multiset().add(s.filter(q).to_multiset()) =~= s.to_multiset());
    } else {
        assert(s.filter(p) =~= s);
        assert(s.filter(q) =~= s);
        assert(s.to_multiset().add(s.to_multiset()) =~= s.to_multiset());
    }
}

proof fn filter_keeps_order(s: Seq<HostView>, p: spec_fn(HostView) -> bool)
    requires
        is_in_name_order(s),
    ensures
        is_in_name_order(s.filter(p)),
        forall|i: int|
            0 <= i < s.filter(p).len() ==> p(#[trigger] s.filter(p)[i]) && s.contains(
                s.filter(p)[i],
            ),
    decreases s.len(),
{
    reveal(Seq::filter);
    if s.len() > 0 {
        let front = s.drop_last();
        filter_keeps_order(front, p);
        let r = s.filter(p);
        assert forall|i: int| 0 <= i < r.len() implies p(#[trigger] r[i]) && s.contains(r[i]) by {
            if i < front.filter(p).len() {
                assert(r[i] == front.filter(p)[i]);
                let k = choose|k: int| 0 <= k < front.len() && front[k] == r[i];
                assert(s[k] == r[i]);
            } else {
                assert(r[i] == s[s.len() - 1]);
            }
        }
        assert forall|i: int, j: int| 0 <= i < j < r.len() implies !shown_before(
            #[trigger] r[j],
            #[trigger] r[i],
        ) by {
            assert(r[i] == front.filter(p)[i]);
            if j < front.filter(p).len() {
                assert(r[j] == front.filter(p)[j]);
            } else {
                let k = choose|k: int| 0 <= k < front.len() && front[k] == r[i];
                assert(s[k] == r[i]);
            }
        }
    }
}

/// What a filter yields is what meets the condition.
proof fn filter_members(s: Seq<HostView>, p: spec_fn(HostView) -> bool)
    ensures
        forall|x: HostView| #[trigger] s.filter(p).contains(x) <==> s.contains(x) && p(x),
    decreases s.len(),
{
    reveal(Seq::filter);
    if s.len() > 0 {
        let front = s.drop_last();
        filter_members(front, p);
        assert(s =~= front.push(s.last()));
        assert forall|x: HostView| #[trigger] s.filter(p).contains(x) <==> s.contains(x) && p(
            x,
        ) by {
            contains_push(front, s.last(), x);
            contains_push(front.filter(p), s.last(), x);
        }
    }
}

proof fn contains_push(s: Seq<HostView>, a: HostView, x: HostView)
    ensures
        s.push(a).contains(x) <==> s.contains(x) || x == a,
{
    if s.contains(x) {
        let k = choose|k: int| 0 <= k < s.len() && s[k] == x;
        assert(s.push(a)[k] == x);
    }
    assert(s.push(a)[s.len() as int] == a);
    if s.push(a).contains(x) && x != a {
        let k = choose|k: int| 0 <= k < s.push(a).len() && s.push(a)[k] == x;
        assert(s[k] == x);
    }
}

proof fn same_members(s: Seq<HostView>, t: Seq<HostView>, x: HostView)
    requires
        s.to_multiset() == t.to_multiset(),
    ensures
        s.contains(x) <==> t.contains(x),
        s.len() == t.len(),
{
    broadcast use group_to_multiset_ensures;

    assert(s.len() == s.to_multiset().len());
    assert(s.contains(x) <==> s.to_multiset().count(x) > 0);
    assert(t.contains(x) <==> t.to_multiset().count(x) > 0);
}

// ── References ───────────────────────────────────────────────────────────

/// No host has a bad reference.
pub open spec fn references_hold(hosts: Seq<HostView>) -> bool {
    forall|i: int| 0 <= i < hosts.len() ==> #[trigger] bad_parent(hosts, i) is None
}

/// A host is marked as a child exactly when it refers to a parent.
pub open spec fn marks_agree(hosts: Seq<HostView>) -> bool {
    forall|i: int|
        0 <= i < hosts.len() ==> (#[trigger] hosts[i]).is_child == (hosts[i].parent is Some)
}

/// The two sequences hold the same hosts, up to lost references.
pub open spec fn same_but_for_references(before: Seq<HostView>, after: Seq<HostView>) -> bool {
    &&& before.len() == after.len()
    &&& forall|i: int|
        0 <= i < before.len() ==> #[trigger] after[i] == before[i] || after[i] == at_top(before[i])
}

proof fn check_keeps_hosts(hosts: Seq<HostView>, n: int)
    requires
        n <= hosts.len(),
    ensures
        same_but_for_references(hosts, checked(hosts, n)),
        forall|i: int| n <= i < hosts.len() ==> #[trigger] checked(hosts, n)[i] == hosts[i],
        marks_agree(hosts) ==> marks_agree(checked(hosts, n)),
    decreases n,
{
    if n > 0 {
        check_keeps_hosts(hosts, n - 1);
    }
}

/// A lookup by name gives the same position in two sequences whose names agree.
proof fn lookup_depends_on_names(a: Seq<HostView>, b: Seq<HostView>, name: Seq<char>, n: int)
    requires
        n <= a.len(),
        a.len() == b.len(),
        forall|i: int| 0 <= i < a.len() ==> (#[trigger] a[i]).name == b[i].name,
    ensures
        first_called(a, name, n) == first_called(b, name, n),
    decreases n,
{
    if n > 0 {
        lookup_depends_on_names(a, b, name, n - 1);
        assert(a[n - 1].name == b[n - 1].name);
    }
}

proof fn good_references_stay_good(hosts: Seq<HostView>, n: int, i: int)
    requires
        0 <= i < n <= hosts.len(),
    ensures
        bad_parent(checked(hosts, n), i) is None,
    decreases n,
{
    let before = checked(hosts, n - 1);
    let after = checked(hosts, n);
    check_keeps_hosts(hosts, n - 1);
    check_keeps_hosts(hosts, n);
    assert forall|k: int| 0 <= k < hosts.len() implies (#[trigger] before[k]).name
        == after[k].name by {
        assert(after[k] == hosts[k] || after[k] == at_top(hosts[k]));
    }
    if i < n - 1 {
        good_references_stay_good(hosts, n - 1, i);
    }
    if after[i].parent is Some {
        let p = after[i].parent->0;
        assert(before[i] == after[i]);
        lookup_depends_on_names(before, after, p, hosts.len() as int);
        first_called_in_range(after, p, hosts.len() as int);
    }
}

/// After the check no bad reference is left, every host is still there, in its
/// place, and has lost at most its reference.
pub proof fn check_leaves_good_references(hosts: Seq<HostView>)
    ensures
        references_hold(checked(hosts, hosts.len() as int)),
        same_but_for_references(hosts, checked(hosts, hosts.len() as int)),
{
    let n = hosts.len() as int;
    check_keeps_hosts(hosts, n);
    assert forall|i: int| 0 <= i < n implies #[trigger] bad_parent(
        checked(hosts, n),
        i,
    ) is None by {
        good_references_stay_good(hosts, n, i);
    }
}

proof fn good_references_pass(hosts: Seq<HostView>, group: Seq<char>, n: int)
    requires
        n <= hosts.len(),
        references_hold(hosts),
    ensures
        checked(hosts, n) == hosts,
        parent_warnings(hosts, group, n).len() == 0,
    decreases n,
{
    if n > 0 {
        good_references_pass(hosts, group, n - 1);
        assert(bad_parent(hosts, n - 1) is None);
    }
}

proof fn warning_free_check_changes_nothing(hosts: Seq<HostView>, group: Seq<char>, n: int)
    requires
        n <= hosts.len(),
        parent_warnings(hosts, group, n).len() == 0,
    ensures
        checked(hosts, n) == hosts,
    decreases n,
{
    if n > 0 {
        warning_free_check_changes_nothing(hosts, group, n - 1);
    }
}

/// A group draws no warning exactly when none of its references is bad.
pub proof fn no_parent_warnings_iff_references_hold(hosts: Seq<HostView>, group: Seq<char>)
    ensures
        parent_warnings(hosts, group, hosts.len() as int).len() == 0 <==> references_hold(hosts),
{
    let n = hosts.len() as int;
    if references_hold(hosts) {
        good_references_pass(hosts, group, n);
    }
    if parent_warnings(hosts, group, n).len() == 0 {
        warning_free_check_changes_nothing(hosts, group, n);
        check_leaves_good_references(hosts);
    }
}

// ── Nesting ──────────────────────────────────────────────────────────────

proof fn nesting_keeps_hosts(tops: Seq<HostView>, kids: Seq<HostView>)
    ensures
        nested(tops, kids).to_multiset() == tops.to_multiset().add(kids.to_multiset()),
    decreases tops.len(),
{
    broadcast use group_to_multiset_ensures;

    if tops.len() == 0 {
        assert(tops.to_multiset() =~= Multiset::empty());
        assert(nested(tops, kids).to_multiset() =~= tops.to_multiset().add(kids.to_multiset()));
    } else {
        let name = tops[0].name;
        let own = children_of(kids, name);
        let rest = nested(tops.drop_first(), others_than(kids, name));
        nesting_keeps_hosts(tops.drop_first(), others_than(kids, name));
        filter_splits(
            kids,
            |h: HostView| belongs_to(h, name),
            |h: HostView| !belongs_to(h, name),
        );
        let head = seq![tops[0]];
        lemma_multiset_commutative(head, own);
        lemma_multiset_commutative(head + own, rest);
        lemma_multiset_commutative(head, tops.drop_first());
        assert(tops =~= head + tops.drop_first());
        assert(nested(tops, kids).to_multiset() =~= tops.to_multiset().add(kids.to_multiset()));
    }
}

/// Organising a group keeps every host: the result is a rearrangement of the
/// hosts, each of which has lost at most a bad reference.
pub proof fn organising_keeps_every_host(hosts: Seq<HostView>)
    ensures
        organised(hosts).to_multiset() == checked(hosts, hosts.len() as int).to_multiset(),
        same_but_for_references(hosts, checked(hosts, hosts.len() as int)),
{
    check_leaves_good_references(hosts);
    arranging_keeps_hosts(checked(hosts, hosts.len() as int));
}

proof fn arranging_keeps_hosts(hosts: Seq<HostView>)
    ensures
        arranged(hosts).to_multiset() == hosts.to_multiset(),
{
    sorting_orders_and_keeps(top_hosts(hosts));
    sorting_orders_and_keeps(child_hosts(hosts));
    nesting_keeps_hosts(in_name_order(top_hosts(hosts)), in_name_order(child_hosts(hosts)));
    filter_splits(hosts, |h: HostView| !h.is_child, |h: HostView| h.is_child);
}

/// The host at position `i` is a child shown beneath the top-level host at
/// position `j`: from `j` on down to `i` all hosts are children of `j`.
pub open spec fn sits_under(s: Seq<HostView>, j: int, i: int) -> bool {
    &&& 0 <= j < i < s.len()
    &&& !s[j].is_child
    &&& forall|k: int|
        j < k <= i ==> (#[trigger] s[k]).is_child && belongs_to(s[k], s[j].name)
}

/// Every child has a parent among the top-level hosts.
spec fn parents_present(tops: Seq<HostView>, kids: Seq<HostView>) -> bool {
    &&& forall|i: int| 0 <= i < tops.len() ==> !(#[trigger] tops[i]).is_child
    &&& forall|x: HostView| #[trigger]
        kids.contains(x) ==> x.is_child && exists|t: int|
            0 <= t < tops.len() && belongs_to(x, #[trigger] tops[t].name)
}

proof fn parents_present_in_rest(tops: Seq<HostView>, kids: Seq<HostView>)
    requires
        tops.len() > 0,
        parents_present(tops, kids),
    ensures
        parents_present(tops.drop_first(), others_than(kids, tops[0].name)),
        forall|i: int|
            0 <= i < children_of(kids, tops[0].name).len() ==> (#[trigger] children_of(
                kids,
                tops[0].name,
            )[i]).is_child && belongs_to(children_of(kids, tops[0].name)[i], tops[0].name),
{
    let name = tops[0].name;
    let rest = others_than(kids, name);
    let own = children_of(kids, name);
    filter_members(kids, |h: HostView| belongs_to(h, name));
    filter_members(kids, |h: HostView| !belongs_to(h, name));
    assert forall|i: int| 0 <= i < own.len() implies (#[trigger] own[i]).is_child && belongs_to(
        own[i],
        name,
    ) by {
        assert(own.contains(own[i]));
        assert(kids.contains(own[i]));
    }
    assert forall|x: HostView| #[trigger] rest.contains(x) implies x.is_child && exists|t: int|
        0 <= t < tops.drop_first().len() && belongs_to(
            x,
            #[trigger] tops.drop_first()[t].name,
        ) by {
        assert(kids.contains(x));
        let t = choose|t: int| 0 <= t < tops.len() && belongs_to(x, #[trigger] tops[t].name);
        assert(tops.drop_first()[t - 1] == tops[t]);
    }
}

proof fn nesting_places_children(tops: Seq<HostView>, kids: Seq<HostView>)
    requires
        parents_present(tops, kids),
        is_in_name_order(kids),
    ensures
        forall|i: int|
            0 <= i < nested(tops, kids).len() && (#[trigger] nested(tops, kids)[i]).is_child
                ==> exists|j: int| sits_under(nested(tops, kids), j, i),
        forall|j: int, a: int, b: int|
            a < b && #[trigger] sits_under(nested(tops, kids), j, a) && #[trigger] sits_under(
                nested(tops, kids),
                j,
                b,
            ) ==> !shown_before(nested(tops, kids)[b], nested(tops, kids)[a]),
        top_hosts(nested(tops, kids)) == tops,
        tops.len() > 0 ==> nested(tops, kids).len() > 0 && nested(tops, kids)[0] == tops[0],
    decreases tops.len(),
{
    let r = nested(tops, kids);
    let top = |h: HostView| !h.is_child;
    if tops.len() == 0 {
        if kids.len() > 0 {
            assert(kids.contains(kids[0]));
        }
        assert(r.len() == 0);
        reveal(Seq::filter);
        assert(top_hosts(r) =~= tops);
    } else {
        let name = tops[0].name;
        let own = children_of(kids, name);
        let others = others_than(kids, name);
        let rest = nested(tops.drop_first(), others);
        let m = 1 + own.len();
        parents_present_in_rest(tops, kids);
        filter_keeps_order(kids, |h: HostView| belongs_to(h, name));
        filter_keeps_order(kids, |h: HostView| !belongs_to(h, name));
        nesting_places_children(tops.drop_first(), others);
        assert(forall|i: int| m <= i < r.len() ==> #[trigger] r[i] == rest[i - m]);
        assert(forall|i: int| 1 <= i < m ==> #[trigger] r[i] == own[i - 1]);
        assert(r[0] == tops[0]);
        assert forall|i: int| 0 <= i < r.len() && (#[trigger] r[i]).is_child implies exists|j: int|
            sits_under(r, j, i) by {
            if i < m {
                assert(sits_under(r, 0, i));
            } else {
                let at = i - m;
                assert(rest[at].is_child);
                let j = choose|j: int| sits_under(rest, j, at);
                assert(r[j + m] == rest[j]);
                assert forall|k: int| j + m < k <= i implies (#[trigger] r[k]).is_child
                    && belongs_to(r[k], r[j + m].name) by {
                    assert(r[k] == rest[k - m]);
                }
                assert(sits_under(r, j + m, i));
            }
        }
        assert forall|j: int, a: int, b: int|
            a < b && #[trigger] sits_under(r, j, a) && #[trigger] sits_under(
                r,
                j,
                b,
            ) implies !shown_before(r[b], r[a]) by {
            if j >= m {
                assert(r[j] == rest[j - m]);
                assert forall|k: int| j - m < k <= b - m implies (#[trigger] rest[k]).is_child
                    && belongs_to(rest[k], rest[j - m].name) by {
                    assert(rest[k] == r[k + m]);
                }
                assert(sits_under(rest, j - m, a - m));
                assert(sits_under(rest, j - m, b - m));
            } else {
                if j > 0 {
                    assert(own[j - 1].is_child);
                }
                if b >= m {
                    assert(r[m as int].is_child);
                    assert(rest[0] == r[m as int]);
                    if tops.drop_first().len() > 0 {
                        assert(rest[0] == tops[1]);
                        assert(!tops[1].is_child);
                    } else {
                        assert(others.contains(others[0]));
                    }
                }
                assert(r[a] == own[a - 1] && r[b] == own[b - 1]);
            }
        }
        assert(top_hosts(r) =~= tops) by {
            let head = seq![tops[0]];
            Seq::filter_distributes_over_add(head + own, rest, top);
            Seq::filter_distributes_over_add(head, own, top);
            reveal(Seq::filter);
            assert(head.drop_last() =~= seq![]);
            assert(head.filter(top) =~= head);
            own.lemma_all_neg_filter_empty(top);
            assert(tops =~= head + tops.drop_first());
        }
    }
}

/// In an organised group whose child marks agree with its references, the
/// top-level hosts stand in name order; every child stands beneath the host it
/// refers to, with none but other children of that host in between; and the
/// children of one host stand in name order.
pub proof fn organising_places_hosts(hosts: Seq<HostView>)
    requires
        marks_agree(hosts),
    ensures
        is_in_name_order(top_hosts(organised(hosts))),
        forall|i: int|
            0 <= i < organised(hosts).len() && (#[trigger] organised(hosts)[i]).is_child
                ==> exists|j: int| sits_under(organised(hosts), j, i),
        forall|j: int, a: int, b: int|
            a < b && #[trigger] sits_under(organised(hosts), j, a) && #[trigger] sits_under(
                organised(hosts),
                j,
                b,
            ) ==> !shown_before(organised(hosts)[b], organised(hosts)[a]),
{
    let n = hosts.len() as int;
    let c = checked(hosts, n);
    let tops = in_name_order(top_hosts(c));
    let kids = in_name_order(child_hosts(c));
    check_keeps_hosts(hosts, n);
    check_leaves_good_references(hosts);
    sorting_orders_and_keeps(top_hosts(c));
    sorting_orders_and_keeps(child_hosts(c));
    filter_members(c, |h: HostView| !h.is_child);
    filter_members(c, |h: HostView| h.is_child);
    assert forall|i: int| 0 <= i < tops.len() implies !(#[trigger] tops[i]).is_child by {
        assert(tops.contains(tops[i]));
        same_members(tops, top_hosts(c), tops[i]);
    }
    assert forall|x: HostView| #[trigger] kids.contains(x) implies x.is_child && exists|t: int|
        0 <= t < tops.len() && belongs_to(x, #[trigger] tops[t].name) by {
        same_members(kids, child_hosts(c), x);
        assert(c.contains(x));
        let i = choose|i: int| 0 <= i < c.len() && c[i] == x;
        assert(bad_parent(c, i) is None);
        let p = x.parent->0;
        first_called_in_range(c, p, c.len() as int);
        let j = first_called(c, p, c.len() as int)->0;
        assert(c.contains(c[j]));
        assert(top_hosts(c).contains(c[j]));
        same_members(tops, top_hosts(c), c[j]);
        let t = choose|t: int| 0 <= t < tops.len() && tops[t] == c[j];
        assert(belongs_to(x, tops[t].name));
    }
    assert(parents_present(tops, kids));
    nesting_places_children(tops, kids);
}

// ── Independence of the given order ──────────────────────────────────────

/// No two hosts have the same name, up to case.
pub open spec fn names_differ(hosts: Seq<HostView>) -> bool {
    forall|i: int, j: int|
        0 <= i < j < hosts.len() ==> !same_ignoring_case(
            (#[trigger] hosts[i]).name,
            (#[trigger] hosts[j]).name,
        )
}

/// Two members with the same name are the same host.
spec fn names_identify(hosts: Seq<HostView>) -> bool {
    forall|x: HostView, y: HostView| #[trigger]
        hosts.contains(x) && #[trigger] hosts.contains(y) && same_ignoring_case(x.name, y.name)
            ==> x == y
}

proof fn different_names_identify(hosts: Seq<HostView>)
    requires
        names_differ(hosts),
    ensures
        names_identify(hosts),
        hosts.no_duplicates(),
{
    assert forall|x: HostView, y: HostView| #[trigger]
        hosts.contains(x) && #[trigger] hosts.contains(y) && same_ignoring_case(
            x.name,
            y.name,
        ) implies x == y by {
        let i = choose|i: int| 0 <= i < hosts.len() && hosts[i] == x;
        let j = choose|j: int| 0 <= j < hosts.len() && hosts[j] == y;
        if i < j {
            assert(!same_ignoring_case(hosts[i].name, hosts[j].name));
        } else if j < i {
            assert(!same_ignoring_case(hosts[j].name, hosts[i].name));
        }
    }
    assert forall|i: int, j: int|
        0 <= i < hosts.len() && 0 <= j < hosts.len() && i != j implies hosts[i] != hosts[j] by {
        if i < j {
            assert(!same_ignoring_case(hosts[i].name, hosts[j].name));
        } else {
            assert(!same_ignoring_case(hosts[j].name, hosts[i].name));
        }
    }
}

proof fn ordered_sequence_is_unique(a: Seq<HostView>, b: Seq<HostView>)
    requires
        a.to_multiset() == b.to_multiset(),
        is_in_name_order(a),
        is_in_name_order(b),
        names_identify(a),
    ensures
        a == b,
    decreases a.len(),
{
    broadcast use group_to_multiset_ensures;

    same_members(a, b, a.last());
    if a.len() > 0 {
        let x = a.last();
        let y = b.last();
        same_members(a, b, y);
        same_members(a, b, x);
        assert(a[a.len() - 1] == x);
        assert(b[b.len() - 1] == y);
        assert(a.contains(x) && b.contains(y));
        let i = choose|i: int| 0 <= i < a.len() && a[i] == y;
        let j = choose|j: int| 0 <= j < b.len() && b[j] == x;
        assert(!shown_before(x, y)) by {
            if i < a.len() - 1 {
                assert(!shown_before(a[a.len() - 1], a[i]));
            } else {
                name_order_is_total(x, x, x);
            }
        }
        assert(!shown_before(y, x)) by {
            if j < b.len() - 1 {
                assert(!shown_before(b[b.len() - 1], b[j]));
            } else {
                name_order_is_total(y, y, y);
            }
        }
        name_order_is_total(x, y, x);
        assert(x == y);
        assert(a =~= a.drop_last().push(x));
        assert(b =~= b.drop_last().push(x));
        assert(a.drop_last().to_multiset() =~= a.to_multiset().remove(x));
        assert(b.drop_last().to_multiset() =~= b.to_multiset().remove(x));
        assert(names_identify(a.drop_last())) by {
            assert forall|u: HostView, v: HostView| #[trigger]
                a.drop_last().contains(u) && #[trigger] a.drop_last().contains(v)
                    && same_ignoring_case(u.name, v.name) implies u == v by {
                contains_push(a.drop_last(), x, u);
                contains_push(a.drop_last(), x, v);
                assert(a.contains(u) && a.contains(v));
            }
        }
        ordered_sequence_is_unique(a.drop_last(), b.drop_last());
    } else {
        assert(a =~= b);
    }
}

proof fn filter_of_rearrangement(s: Seq<HostView>, p: spec_fn(HostView) -> bool)
    ensures
        s.filter(p).to_multiset() == s.to_multiset().filter(p),
    decreases s.len(),
{
    broadcast use group_to_multiset_ensures;

    reveal(Seq::filter);
    if s.len() > 0 {
        filter_of_rearrangement(s.drop_last(), p);
        assert(s =~= s.drop_last().push(s.last()));
    }
    assert(s.filter(p).to_multiset() =~= s.to_multiset().filter(p));
}

proof fn references_hold_in_rearrangement(a: Seq<HostView>, b: Seq<HostView>)
    requires
        a.to_multiset() == b.to_multiset(),
        names_identify(a),
        references_hold(a),
    ensures
        references_hold(b),
{
    assert forall|i: int| 0 <= i < b.len() implies #[trigger] bad_parent(b, i) is None by {
        let x = b[i];
        if x.parent is Some {
            let p = x.parent->0;
            assert(b.contains(x));
            same_members(a, b, x);
            let k = choose|k: int| 0 <= k < a.len() && a[k] == x;
            assert(bad_parent(a, k) is None);
            first_called_in_range(a, p, a.len() as int);
            let y = a[first_called(a, p, a.len() as int)->0];
            assert(a.contains(y));
            same_members(a, b, y);
            let j = choose|j: int| 0 <= j < b.len() && b[j] == y;
            first_called_in_range(b, p, b.len() as int);
            assert(same_ignoring_case(b[j].name, p));
            let z = b[first_called(b, p, b.len() as int)->0];
            assert(b.contains(z));
            same_members(a, b, z);
            assert(same_ignoring_case(y.name, z.name));
            assert(y == z);
        }
    }
}

proof fn arrangement_ignores_order(a: Seq<HostView>, b: Seq<HostView>)
    requires
        a.to_multiset() == b.to_multiset(),
        names_identify(a),
    ensures
        arranged(a) == arranged(b),
{
    let top = |h: HostView| !h.is_child;
    let child = |h: HostView| h.is_child;
    filter_of_rearrangement(a, top);
    filter_of_rearrangement(b, top);
    filter_of_rearrangement(a, child);
    filter_of_rearrangement(b, child);
    filter_members(a, top);
    filter_members(a, child);
    sorting_orders_and_keeps(top_hosts(a));
    sorting_orders_and_keeps(top_hosts(b));
    sorting_orders_and_keeps(child_hosts(a));
    sorting_orders_and_keeps(child_hosts(b));
    let tops = in_name_order(top_hosts(a));
    let kids = in_name_order(child_hosts(a));
    assert forall|x: HostView, y: HostView| #[trigger]
        tops.contains(x) && #[trigger] tops.contains(y) && same_ignoring_case(
            x.name,
            y.name,
        ) implies x == y by {
        same_members(tops, top_hosts(a), x);
        same_members(tops, top_hosts(a), y);
        assert(a.contains(x) && a.contains(y));
    }
    assert forall|x: HostView, y: HostView| #[trigger]
        kids.contains(x) && #[trigger] kids.contains(y) && same_ignoring_case(
            x.name,
            y.name,
        ) implies x == y by {
        same_members(kids, child_hosts(a), x);
        same_members(kids, child_hosts(a), y);
        assert(a.contains(x) && a.contains(y));
    }
    ordered_sequence_is_unique(tops, in_name_order(top_hosts(b)));
    ordered_sequence_is_unique(kids, in_name_order(child_hosts(b)));
}

/// The order in which hosts are given does not matter: two arrangements of the
/// same hosts, with names that differ and no bad reference, are organised alike,
/// and neither draws a warning.
pub proof fn given_order_does_not_matter(a: Seq<HostView>, b: Seq<HostView>, group: Seq<char>)
    requires
        a.to_multiset() == b.to_multiset(),
        names_differ(a),
        references_hold(a),
    ensures
        organised(a) == organised(b),
        parent_warnings(a, group, a.len() as int).len() == 0,
        parent_warnings(b, group, b.len() as int).len() == 0,
{
    different_names_identify(a);
    references_hold_in_rearrangement(a, b);
    good_references_pass(a, group, a.len() as int);
    good_references_pass(b, group, b.len() as int);
    arrangement_ignores_order(a, b);
}

/// Organising a group whose names differ a second time changes nothing and draws
/// no warning.
pub proof fn organising_again_changes_nothing(hosts: Seq<HostView>, group: Seq<char>)
    requires
        names_differ(hosts),
    ensures
        organised(organised(hosts)) == organised(hosts),
        parent_warnings(organised(hosts), group, organised(hosts).len() as int).len() == 0,
{
    let c = checked(hosts, hosts.len() as int);
    let r = organised(hosts);
    check_leaves_good_references(hosts);
    organising_keeps_every_host(hosts);
    assert forall|i: int, j: int| 0 <= i < j < c.len() implies !same_ignoring_case(
        (#[trigger] c[i]).name,
        (#[trigger] c[j]).name,
    ) by {
        assert(c[i].name == hosts[i].name && c[j].name == hosts[j].name);
    }
    different_names_identify(c);
    references_hold_in_rearrangement(c, r);
    good_references_pass(r, group, r.len() as int);
    arrangement_ignores_order(c, r);
}

// ── The check of one reference ───────────────────────────────────────────

/// The host without its reference, all else as it was.
pub open spec fn without_parent(h: HostView) -> HostView {
    HostView { is_child: false, parent: None, ..h }
}

/// How a warning about a host begins.
pub open spec fn warning_start(h: HostView) -> Seq<char> {
    "host '"@ + h.name + "': "@
}

/// The first of the hosts with a name, up to case.
pub open spec fn is_first_named(hosts: Seq<HostView>, name: Seq<char>, j: int) -> bool {
    &&& 0 <= j < hosts.len()
    &&& same_ignoring_case(hosts[j].name, name)
    &&& forall|k: int| 0 <= k < j ==> !same_ignoring_case(#[trigger] hosts[k].name, name)
}

/// A host without a reference passes the check, unchanged and without a warning.
pub proof fn no_reference_passes(hosts: Seq<HostView>, group: Seq<char>, i: int)
    requires
        0 <= i < hosts.len(),
        checked(hosts, i)[i].parent is None,
    ensures
        checked(hosts, i + 1) == checked(hosts, i),
        parent_warnings(hosts, group, i + 1) == parent_warnings(hosts, group, i),
{
}

/// A reference to another host, the first of whose namesakes has no reference when
/// this one is checked, passes the check: the host keeps it and draws no warning.
pub proof fn reference_to_a_top_level_host_passes(
    hosts: Seq<HostView>,
    group: Seq<char>,
    i: int,
    p: Seq<char>,
    j: int,
)
    requires
        0 <= i < hosts.len(),
        checked(hosts, i)[i].parent == Some(p),
        !same_ignoring_case(p, checked(hosts, i)[i].name),
        is_first_named(checked(hosts, i), p, j),
        checked(hosts, i)[j].parent is None,
    ensures
        checked(hosts, i + 1) == checked(hosts, i),
        parent_warnings(hosts, group, i + 1) == parent_warnings(hosts, group, i),
{
    let so_far = checked(hosts, i);
    check_keeps_hosts(hosts, i);
    first_called_in_range(so_far, p, so_far.len() as int);
}

/// A reference of a host to itself is dropped, with a warning that says so.
pub proof fn reference_to_itself_is_dropped(
    hosts: Seq<HostView>,
    group: Seq<char>,
    i: int,
    p: Seq<char>,
)
    requires
        0 <= i < hosts.len(),
        checked(hosts, i)[i].parent == Some(p),
        same_ignoring_case(p, checked(hosts, i)[i].name),
    ensures
        checked(hosts, i + 1) == checked(hosts, i).update(i, without_parent(checked(hosts, i)[i])),
        parent_warnings(hosts, group, i + 1) == parent_warnings(hosts, group, i).push(
            warning_start(checked(hosts, i)[i]) + "cannot be its own parent"@
                + "; showing at top level"@,
        ),
{
}

/// A reference to a name that no host has is dropped, with a warning that gives the
/// name and the group.
pub proof fn reference_to_nobody_is_dropped(
    hosts: Seq<HostView>,
    group: Seq<char>,
    i: int,
    p: Seq<char>,
)
    requires
        0 <= i < hosts.len(),
        checked(hosts, i)[i].parent == Some(p),
        forall|k: int| 0 <= k < hosts.len() ==> !same_ignoring_case(#[trigger] hosts[k].name, p),
    ensures
        checked(hosts, i + 1) == checked(hosts, i).update(i, without_parent(checked(hosts, i)[i])),
        parent_warnings(hosts, group, i + 1) == parent_warnings(hosts, group, i).push(
            warning_start(checked(hosts, i)[i]) + ("parent '"@ + p + "' not found in group '"@
                + group + "'"@) + "; showing at top level"@,
        ),
{
    let so_far = checked(hosts, i);
    check_keeps_hosts(hosts, i);
    assert(so_far[i].name == hosts[i].name);
    assert(!same_ignoring_case(p, so_far[i].name));
    first_called_in_range(so_far, p, so_far.len() as int);
    if let Some(k) = first_called(so_far, p, so_far.len() as int) {
        assert(so_far[k].name == hosts[k].name);
    }
}

/// A reference to a host that has one itself when this one is checked is dropped,
/// with a warning that says so.
pub proof fn reference_to_a_child_is_dropped(
    hosts: Seq<HostView>,
    group: Seq<char>,
    i: int,
    p: Seq<char>,
    j: int,
)
    requires
        0 <= i < hosts.len(),
        checked(hosts, i)[i].parent == Some(p),
        !same_ignoring_case(p, checked(hosts, i)[i].name),
        is_first_named(checked(hosts, i), p, j),
        checked(hosts, i)[j].parent is Some,
    ensures
        checked(hosts, i + 1) == checked(hosts, i).update(i, without_parent(checked(hosts, i)[i])),
        parent_warnings(hosts, group, i + 1) == parent_warnings(hosts, group, i).push(
            warning_start(checked(hosts, i)[i]) + ("parent '"@ + p
                + "' is itself a child (only one level of nesting is supported)"@)
                + "; showing at top level"@,
        ),
{
    let so_far = checked(hosts, i);
    check_keeps_hosts(hosts, i);
    first_called_in_range(so_far, p, so_far.len() as int);
}

/// The check begins with the hosts as they are and without a warning.
pub proof fn check_begins_with_the_hosts(hosts: Seq<HostView>, group: Seq<char>)
    ensures
        checked(hosts, 0) == hosts,
        parent_warnings(hosts, group, 0).len() == 0,
{
}

proof fn later_checks_leave_it(hosts: Seq<HostView>, i: int, n: int)
    requires
        0 <= i < n <= hosts.len(),
    ensures
        checked(hosts, n)[i] == checked(hosts, i + 1)[i],
    decreases n,
{
    if i + 1 < n {
        later_checks_leave_it(hosts, i, n - 1);
        check_keeps_hosts(hosts, n - 1);
    }
}

/// A reference to another host of the group, all of whose namesakes are without a
/// reference, is kept, however the hosts are listed.
pub proof fn good_reference_is_kept(hosts: Seq<HostView>, group: Seq<char>, i: int, p: Seq<char>)
    requires
        0 <= i < hosts.len(),
        hosts[i].parent == Some(p),
        !same_ignoring_case(p, hosts[i].name),
        exists|j: int| 0 <= j < hosts.len() && same_ignoring_case(#[trigger] hosts[j].name, p),
        forall|j: int|
            0 <= j < hosts.len() && same_ignoring_case(#[trigger] hosts[j].name, p)
                ==> hosts[j].parent is None,
    ensures
        checked(hosts, hosts.len() as int)[i] == hosts[i],
        parent_warnings(hosts, group, i + 1) == parent_warnings(hosts, group, i),
{
    let so_far = checked(hosts, i);
    check_keeps_hosts(hosts, i);
    first_called_in_range(so_far, p, so_far.len() as int);
    let k = choose|k: int| 0 <= k < hosts.len() && same_ignoring_case(#[trigger] hosts[k].name, p);
    assert(so_far[k].name == hosts[k].name);
    let j = first_called(so_far, p, so_far.len() as int)->0;
    assert(so_far[j].name == hosts[j].name);
    reference_to_a_top_level_host_passes(hosts, group, i, p, j);
    later_checks_leave_it(hosts, i, hosts.len() as int);
}

/// A host without a reference, or with one to itself or to nobody, is at top level
/// after the check, and is otherwise as it was.
pub proof fn bad_reference_is_lost(hosts: Seq<HostView>, i: int)
    requires
        0 <= i < hosts.len(),
        hosts[i].parent matches Some(p) ==> same_ignoring_case(p, hosts[i].name) || forall|k: int|
            0 <= k < hosts.len() ==> !same_ignoring_case(#[trigger] hosts[k].name, p),
    ensures
        hosts[i].parent is Some ==> checked(hosts, hosts.len() as int)[i] == without_parent(
            hosts[i],
        ),
        hosts[i].parent is None ==> checked(hosts, hosts.len() as int)[i] == hosts[i],
{
    let so_far = checked(hosts, i);
    check_keeps_hosts(hosts, i);
    assert(so_far[i] == hosts[i]);
    if let Some(p) = hosts[i].parent {
        if same_ignoring_case(p, hosts[i].name) {
            reference_to_itself_is_dropped(hosts, seq![], i, p);
        } else {
            reference_to_nobody_is_dropped(hosts, seq![], i, p);
        }
    }
    later_checks_leave_it(hosts, i, hosts.len() as int);
}

// ── The order on screen ──────────────────────────────────────────────────

/// `a` has a name that stands behind that of `b`, by small letters.
pub open spec fn is_behind(a: HostView, b: HostView) -> bool {
    precedes(ascii_lower(b.name), ascii_lower(a.name))
}

/// The host refers to one with the given name, up to case.
pub open spec fn refers_to(h: HostView, name: Seq<char>) -> bool {
    h.parent matches Some(p) && same_ignoring_case(p, name)
}

/// From position `t` down to `i` stand a top-level host and hosts that refer to it.
pub open spec fn is_beneath(s: Seq<HostView>, t: int, i: int) -> bool {
    &&& 0 <= t < i < s.len()
    &&& !s[t].is_child
    &&& forall|k: int| t < k <= i ==> (#[trigger] s[k]).is_child && refers_to(s[k], s[t].name)
}

/// In an organised group the top-level hosts stand in the order of their names, up
/// to case.
pub proof fn top_level_hosts_are_alphabetical(hosts: Seq<HostView>, i: int, j: int)
    requires
        marks_agree(hosts),
        0 <= i < j < organised(hosts).len(),
        !organised(hosts)[i].is_child,
        !organised(hosts)[j].is_child,
    ensures
        !is_behind(organised(hosts)[i], organised(hosts)[j]),
{
    let r = organised(hosts);
    organising_places_hosts(hosts);
    let a = filter_position(r, |h: HostView| !h.is_child, i);
    let b = filter_position(r, |h: HostView| !h.is_child, j);
    filter_positions_ascend(r, |h: HostView| !h.is_child, i, j);
    assert(!shown_before(top_hosts(r)[b], top_hosts(r)[a]));
}

/// How many of the first `i` members meet a condition.
spec fn met_before(s: Seq<HostView>, p: spec_fn(HostView) -> bool, i: int) -> int {
    s.take(i).filter(p).len() as int
}

/// Where a member that meets a condition stands among those that do.
proof fn filter_position(s: Seq<HostView>, p: spec_fn(HostView) -> bool, i: int) -> (a: int)
    requires
        0 <= i < s.len(),
        p(s[i]),
    ensures
        a == met_before(s, p, i),
        0 <= a < s.filter(p).len(),
        s.filter(p)[a] == s[i],
    decreases s.len(),
{
    reveal(Seq::filter);
    let front = s.drop_last();
    if i < s.len() - 1 {
        let a = filter_position(front, p, i);
        assert(front.take(i) =~= s.take(i));
        assert(s.filter(p)[a] == front.filter(p)[a]);
        a
    } else {
        assert(s.take(i) =~= front);
        front.filter(p).len() as int
    }
}

proof fn filter_positions_ascend(s: Seq<HostView>, p: spec_fn(HostView) -> bool, i: int, j: int)
    requires
        0 <= i < j < s.len(),
        p(s[i]),
    ensures
        met_before(s, p, i) < met_before(s, p, j),
{
    let t = s.take(j);
    let a = filter_position(t, p, i);
    assert(t.take(i) =~= s.take(i));
}

/// In an organised group every child stands directly beneath the host it refers to,
/// with none but other children of that host in between; and that host is the first
/// of its name.
pub proof fn children_stand_beneath_their_parent(hosts: Seq<HostView>, i: int)
    requires
        marks_agree(hosts),
        0 <= i < organised(hosts).len(),
        organised(hosts)[i].is_child,
    ensures
        exists|t: int| #[trigger]
            is_beneath(organised(hosts), t, i) && forall|k: int|
                0 <= k < t && !(#[trigger] organised(hosts)[k]).is_child ==> !refers_to(
                    organised(hosts)[i],
                    organised(hosts)[k].name,
                ),
{
    let r = organised(hosts);
    let n = hosts.len() as int;
    let c = checked(hosts, n);
    organising_places_hosts(hosts);
    let t = choose|t: int| sits_under(r, t, i);
    assert(is_beneath(r, t, i));
    check_keeps_hosts(hosts, n);
    check_leaves_good_references(hosts);
    let tops = in_name_order(top_hosts(c));
    let kids = in_name_order(child_hosts(c));
    organised_has_parents(hosts);
    assert forall|k: int| 0 <= k < t && !(#[trigger] r[k]).is_child implies !refers_to(
        r[i],
        r[k].name,
    ) by {
        if refers_to(r[i], r[k].name) {
            namesake_is_directly_above(tops, kids, k, i);
            assert(r[t].is_child);
        }
    }
}

/// Every child of an organised group finds its parent among the top-level hosts.
proof fn organised_has_parents(hosts: Seq<HostView>)
    requires
        marks_agree(hosts),
    ensures
        parents_present(
            in_name_order(top_hosts(checked(hosts, hosts.len() as int))),
            in_name_order(child_hosts(checked(hosts, hosts.len() as int))),
        ),
{
    let n = hosts.len() as int;
    let c = checked(hosts, n);
    let tops = in_name_order(top_hosts(c));
    let kids = in_name_order(child_hosts(c));
    check_keeps_hosts(hosts, n);
    check_leaves_good_references(hosts);
    sorting_orders_and_keeps(top_hosts(c));
    sorting_orders_and_keeps(child_hosts(c));
    filter_members(c, |h: HostView| !h.is_child);
    filter_members(c, |h: HostView| h.is_child);
    assert forall|i: int| 0 <= i < tops.len() implies !(#[trigger] tops[i]).is_child by {
        assert(tops.contains(tops[i]));
        same_members(tops, top_hosts(c), tops[i]);
    }
    assert forall|x: HostView| #[trigger] kids.contains(x) implies x.is_child && exists|t: int|
        0 <= t < tops.len() && belongs_to(x, #[trigger] tops[t].name) by {
        same_members(kids, child_hosts(c), x);
        assert(c.contains(x));
        let i = choose|i: int| 0 <= i < c.len() && c[i] == x;
        assert(bad_parent(c, i) is None);
        let p = x.parent->0;
        first_called_in_range(c, p, c.len() as int);
        let j = first_called(c, p, c.len() as int)->0;
        assert(c.contains(c[j]));
        assert(top_hosts(c).contains(c[j]));
        same_members(tops, top_hosts(c), c[j]);
        let t = choose|t: int| 0 <= t < tops.len() && tops[t] == c[j];
        assert(belongs_to(x, tops[t].name));
    }
}

proof fn nested_children_are_kids(tops: Seq<HostView>, kids: Seq<HostView>, i: int)
    requires
        parents_present(tops, kids),
        0 <= i < nested(tops, kids).len(),
        nested(tops, kids)[i].is_child,
    ensures
        kids.contains(nested(tops, kids)[i]),
    decreases tops.len(),
{
    let r = nested(tops, kids);
    if tops.len() > 0 {
        let own = children_of(kids, tops[0].name);
        let others = others_than(kids, tops[0].name);
        let m = 1 + own.len();
        parents_present_in_rest(tops, kids);
        filter_members(kids, |h: HostView| belongs_to(h, tops[0].name));
        filter_members(kids, |h: HostView| !belongs_to(h, tops[0].name));
        if i == 0 {
        } else if i < m {
            assert(r[i] == own[i - 1]);
            assert(own.contains(own[i - 1]));
        } else {
            let rest = nested(tops.drop_first(), others);
            assert(r[i] == rest[i - m]);
            nested_children_are_kids(tops.drop_first(), others, i - m);
        }
    } else {
        assert(kids.contains(kids[i]));
    }
}

/// A top-level host that a child further down refers to stands directly above it.
proof fn namesake_is_directly_above(tops: Seq<HostView>, kids: Seq<HostView>, k: int, i: int)
    requires
        parents_present(tops, kids),
        0 <= k < i < nested(tops, kids).len(),
        nested(tops, kids)[i].is_child,
        !nested(tops, kids)[k].is_child,
        belongs_to(nested(tops, kids)[i], nested(tops, kids)[k].name),
    ensures
        forall|q: int| k < q <= i ==> (#[trigger] nested(tops, kids)[q]).is_child,
    decreases tops.len(),
{
    let r = nested(tops, kids);
    if tops.len() == 0 {
        assert(kids.contains(kids[k]));
    } else {
        let name = tops[0].name;
        let own = children_of(kids, name);
        let others = others_than(kids, name);
        let rest = nested(tops.drop_first(), others);
        let m = 1 + own.len();
        parents_present_in_rest(tops, kids);
        filter_members(kids, |h: HostView| belongs_to(h, name));
        filter_members(kids, |h: HostView| !belongs_to(h, name));
        assert(r[0] == tops[0]);
        assert forall|q: int| 1 <= q < m implies (#[trigger] r[q]).is_child by {
            assert(r[q] == own[q - 1]);
            assert(own.contains(own[q - 1]));
        }
        if i >= m {
            assert(r[i] == rest[i - m]);
            if k == 0 {
                nested_children_are_kids(tops.drop_first(), others, i - m);
                assert(others.contains(rest[i - m]));
            } else if k < m {
                assert(r[k].is_child);
            } else {
                assert(r[k] == rest[k - m]);
                namesake_is_directly_above(tops.drop_first(), others, k - m, i - m);
                assert forall|q: int| k < q <= i implies (#[trigger] r[q]).is_child by {
                    assert(r[q] == rest[q - m]);
                }
            }
        }
    }
}

/// In an organised group the children of one host stand in the order of their
/// names, up to case.
pub proof fn children_are_alphabetical(hosts: Seq<HostView>, t: int, a: int, b: int)
    requires
        marks_agree(hosts),
        a < b,
        is_beneath(organised(hosts), t, a),
        is_beneath(organised(hosts), t, b),
    ensures
        !is_behind(organised(hosts)[a], organised(hosts)[b]),
{
    organising_places_hosts(hosts);
    assert(sits_under(organised(hosts), t, a));
    assert(sits_under(organised(hosts), t, b));
}

/// Organising neither adds nor drops a host: it shows the hosts that the check left,
/// each as often as it left it, and each of these is one of the hosts given, as it
/// was or without its reference.
pub proof fn organised_hosts_are_the_hosts(hosts: Seq<HostView>)
    ensures
        organised(hosts).len() == hosts.len(),
        organised(hosts).to_multiset() == checked(hosts, hosts.len() as int).to_multiset(),
        checked(hosts, hosts.len() as int).len() == hosts.len(),
        forall|i: int|
            0 <= i < hosts.len() ==> #[trigger] checked(hosts, hosts.len() as int)[i] == hosts[i]
                || checked(hosts, hosts.len() as int)[i] == without_parent(hosts[i]),
{
    let c = checked(hosts, hosts.len() as int);
    organising_keeps_every_host(hosts);
    to_multiset_len(c);
    to_multiset_len(organised(hosts));
}

// ── Hosts with the same name ─────────────────────────────────────────────

proof fn filter_twice(
    s: Seq<HostView>,
    p: spec_fn(HostView) -> bool,
    q: spec_fn(HostView) -> bool,
    both: spec_fn(HostView) -> bool,
)
    requires
        forall|h: HostView| #[trigger] both(h) == (p(h) && q(h)),
    ensures
        s.filter(p).filter(q) == s.filter(both),
    decreases s.len(),
{
    reveal(Seq::filter);
    if s.len() > 0 {
        let front = s.drop_last();
        filter_twice(front, p, q, both);
        assert(both(s.last()) == (p(s.last()) && q(s.last())));
        if p(s.last()) {
            assert(front.filter(p).push(s.last()).drop_last() =~= front.filter(p));
        }
    } else {
        assert(s.filter(p).filter(q) =~= s.filter(both));
    }
}

/// Top-level hosts with the same name, up to case, stay in the order given.
pub proof fn top_level_namesakes_keep_their_order(hosts: Seq<HostView>, name: Seq<char>)
    requires
        marks_agree(hosts),
    ensures
        ({
            let pick = |h: HostView| !h.is_child && same_ignoring_case(h.name, name);
            organised(hosts).filter(pick) == checked(hosts, hosts.len() as int).filter(pick)
        }),
{
    let c = checked(hosts, hosts.len() as int);
    let top = |h: HostView| !h.is_child;
    let called = |h: HostView| same_ignoring_case(h.name, name);
    let pick = |h: HostView| !h.is_child && same_ignoring_case(h.name, name);
    let tops = in_name_order(top_hosts(c));
    let kids = in_name_order(child_hosts(c));
    organised_has_parents(hosts);
    sorting_orders_and_keeps(child_hosts(c));
    nesting_places_children(tops, kids);
    filter_twice(organised(hosts), top, called, pick);
    filter_twice(c, top, called, pick);
    sorting_is_stable(top_hosts(c), name);
    assert(top_hosts(organised(hosts)) == tops);
}

/// The children in a nesting, picked by a condition that only children of one name
/// meet, are those picked among all children.
proof fn nesting_keeps_picked_children(
    tops: Seq<HostView>,
    kids: Seq<HostView>,
    parent: Seq<char>,
    pick: spec_fn(HostView) -> bool,
)
    requires
        parents_present(tops, kids),
        forall|h: HostView| #[trigger] pick(h) ==> h.is_child && belongs_to(h, parent),
    ensures
        nested(tops, kids).filter(pick) == kids.filter(pick),
    decreases tops.len(),
{
    if tops.len() > 0 {
        let name = tops[0].name;
        let head = seq![tops[0]];
        let mine = |h: HostView| belongs_to(h, name);
        let not_mine = |h: HostView| !belongs_to(h, name);
        let own = children_of(kids, name);
        let others = others_than(kids, name);
        let rest = nested(tops.drop_first(), others);
        parents_present_in_rest(tops, kids);
        nesting_keeps_picked_children(tops.drop_first(), others, parent, pick);
        Seq::filter_distributes_over_add(head + own, rest, pick);
        Seq::filter_distributes_over_add(head, own, pick);
        assert(!pick(tops[0]));
        head.lemma_all_neg_filter_empty(pick);
        let none = |h: HostView| false;
        if same_ignoring_case(parent, name) {
            filter_twice(kids, mine, pick, pick);
            filter_twice(kids, not_mine, pick, none);
            nothing_is_picked(kids);
            assert(nested(tops, kids).filter(pick) =~= kids.filter(pick));
        } else {
            assert forall|h: HostView| #[trigger] pick(h) implies !belongs_to(h, name) by {}
            filter_twice(kids, mine, pick, none);
            filter_twice(kids, not_mine, pick, pick);
            nothing_is_picked(kids);
            assert(nested(tops, kids).filter(pick) =~= kids.filter(pick));
        }
    }
}

proof fn nothing_is_picked(s: Seq<HostView>)
    ensures
        s.filter(|h: HostView| false).len() == 0,
    decreases s.len(),
{
    reveal(Seq::filter);
    if s.len() > 0 {
        nothing_is_picked(s.drop_last());
    }
}

/// Children of one host with the same name, up to case, stay in the order given.
pub proof fn child_namesakes_keep_their_order(
    hosts: Seq<HostView>,
    parent: Seq<char>,
    name: Seq<char>,
)
    requires
        marks_agree(hosts),
    ensures
        ({
            let pick = |h: HostView|
                h.is_child && refers_to(h, parent) && same_ignoring_case(h.name, name);
            organised(hosts).filter(pick) == checked(hosts, hosts.len() as int).filter(pick)
        }),
{
    let c = checked(hosts, hosts.len() as int);
    let pick = |h: HostView|
        h.is_child && refers_to(h, parent) && same_ignoring_case(h.name, name);
    let child = |h: HostView| h.is_child;
    let called = |h: HostView| same_ignoring_case(h.name, name);
    let tops = in_name_order(top_hosts(c));
    let kids = in_name_order(child_hosts(c));
    organised_has_parents(hosts);
    nesting_keeps_picked_children(tops, kids, parent, pick);
    sorting_is_stable(child_hosts(c), name);
    filter_twice(kids, called, pick, pick);
    filter_twice(child_hosts(c), called, pick, pick);
    filter_twice(c, child, pick, pick);
}

} // verus!
