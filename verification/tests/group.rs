use netprobe::app::{Group, Host, HostIds};

fn host(ids: &mut HostIds, name: &str, parent: Option<&str>) -> Host {
    let mut h = Host::from_config(name, "10.0.0.1", ids);
    if let Some(p) = parent {
        h.is_child = true;
        h.parent = Some(p.to_string());
    }
    h
}

fn group(hosts: &[(&str, Option<&str>)]) -> Group {
    let mut ids = HostIds::new();
    Group {
        name: "test".into(),
        hosts: hosts.iter().map(|(n, p)| host(&mut ids, n, *p)).collect(),
    }
}

fn names(group: &Group) -> Vec<&str> {
    group.hosts.iter().map(|h| h.name.as_str()).collect()
}

#[test]
fn children_move_under_parent_regardless_of_config_order() {
    let mut g = group(&[
        ("VM1", Some("HOST2")),
        ("HOST1", None),
        ("HOST2", None),
        ("VM2", Some("host1")), // parent match is case-insensitive
    ]);
    let warnings = g.organise();
    assert!(warnings.is_empty());
    assert_eq!(names(&g), vec!["HOST1", "VM2", "HOST2", "VM1"]);
}

#[test]
fn hosts_are_name_sorted_with_children_under_parents() {
    let mut g = group(&[
        ("zeta", None),
        ("Alpha", None),
        ("mike", Some("zeta")),
        ("bravo", Some("Zeta")), // case-insensitive parent + sort
    ]);
    let warnings = g.organise();
    assert!(warnings.is_empty());
    // Top level alphabetical (Alpha, zeta); children alphabetical under zeta.
    assert_eq!(names(&g), vec!["Alpha", "zeta", "bravo", "mike"]);
}

#[test]
fn missing_parent_warns_and_falls_back_to_top_level() {
    let mut g = group(&[("HOST1", None), ("VM1", Some("NOPE"))]);
    let warnings = g.organise();
    assert_eq!(warnings.len(), 1);
    assert!(warnings[0].contains("NOPE"));
    assert!(!g.hosts[1].is_child);
    assert_eq!(names(&g), vec!["HOST1", "VM1"]);
}

#[test]
fn nested_and_self_parents_are_rejected() {
    let mut g = group(&[
        ("A", None),
        ("B", Some("A")),
        ("C", Some("B")), // nested: B is itself a child
        ("D", Some("D")), // self-parent
    ]);
    let warnings = g.organise();
    assert_eq!(warnings.len(), 2);
    let by_name = |n: &str| g.hosts.iter().find(|h| h.name == n).unwrap();
    assert!(!by_name("C").is_child);
    assert!(!by_name("D").is_child);
    // A (top) + its child B, then demoted-to-top C and D, all alphabetical.
    assert_eq!(names(&g), vec!["A", "B", "C", "D"]);
}

#[test]
fn each_bad_reference_has_its_warning() {
    let mut g = group(&[
        ("A", None),
        ("B", Some("A")),
        ("C", Some("b")),
        ("D", Some("d")),
        ("E", Some("nope")),
    ]);
    assert_eq!(
        g.organise(),
        vec![
            "host 'C': parent 'b' is itself a child (only one level of nesting is supported); showing at top level",
            "host 'D': cannot be its own parent; showing at top level",
            "host 'E': parent 'nope' not found in group 'test'; showing at top level",
        ]
    );
    assert!(g.hosts.iter().all(|h| h.is_child == h.parent.is_some()));
}

#[test]
fn a_demoted_parent_is_a_parent_for_the_hosts_after_it() {
    // A's reference is bad; once it is gone, B may sit under A.
    let mut g = group(&[("A", Some("nope")), ("B", Some("A"))]);
    assert_eq!(g.organise().len(), 1);
    assert_eq!(names(&g), vec!["A", "B"]);
    assert!(!g.hosts[0].is_child);
    assert!(g.hosts[1].is_child);
    // The other way round B is checked while A still has its reference.
    let mut g = group(&[("B", Some("A")), ("A", Some("nope"))]);
    assert_eq!(g.organise().len(), 2);
}

#[test]
fn organising_twice_is_organising_once() {
    let mut g = group(&[("b", Some("C")), ("C", None), ("a", Some("C")), ("B2", None)]);
    assert!(g.organise().is_empty());
    let once: Vec<String> = names(&g).iter().map(|n| n.to_string()).collect();
    assert_eq!(once, vec!["B2", "C", "a", "b"]);
    assert!(g.organise().is_empty());
    assert_eq!(names(&g), once);
}

#[test]
fn organising_loses_no_host() {
    let mut g = group(&[("x", Some("y")), ("y", Some("x")), ("z", Some("y")), ("x", None)]);
    let _ = g.organise();
    let mut ids: Vec<u64> = g.hosts.iter().map(|h| h.id).collect();
    ids.sort();
    assert_eq!(ids, vec![1, 2, 3, 4]);
}

#[test]
fn hosts_with_the_same_name_keep_their_order() {
    let mut g = group(&[("n", None), ("N", None), ("a", None), ("n", None)]);
    let _ = g.organise();
    let ids: Vec<u64> = g.hosts.iter().map(|h| h.id).collect();
    assert_eq!(ids, vec![3, 1, 2, 4]);
}

#[test]
fn config_order_does_not_matter() {
    let mut one = group(&[("p", None), ("q", Some("p")), ("a", None)]);
    let mut two = group(&[("q", Some("p")), ("a", None), ("p", None)]);
    let _ = one.organise();
    let _ = two.organise();
    assert_eq!(names(&one), names(&two));
    assert_eq!(names(&one), vec!["a", "p", "q"]);
}
