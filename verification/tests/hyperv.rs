use netprobe::app::{App, Host, HostIds, HostStatus};
use netprobe::config::{Config, GroupConfig, HostConfig, Settings};
use netprobe::hyperv::{
    merge_fits, merge_vms_into_group, read_output, read_texts, Inventory, ShellOutput,
    ShellSearch, ShellStep, VmInfo,
};

fn vm(name: &str, state: &str, ip: &str) -> VmInfo {
    VmInfo {
        name: name.into(),
        state: state.into(),
        ip: ip.into(),
    }
}

fn hosts(names: &[&str]) -> (Vec<Host>, HostIds) {
    let mut ids = HostIds::new();
    let hosts = names.iter().map(|n| Host::from_config(n, "10.0.0.1", &mut ids)).collect();
    (hosts, ids)
}

fn names(hosts: &[Host]) -> Vec<&str> {
    hosts.iter().map(|h| h.name.as_str()).collect()
}

#[test]
fn new_machines_stand_behind_their_parent() {
    let (mut list, mut ids) = hosts(&["HV1", "other"]);
    let vms = [vm("vm1", "Running", "10.0.0.5"), vm("vm2", "Off", "")];
    assert!(merge_fits(&vms, &list));
    merge_vms_into_group("hv1", &vms, &mut list, &mut ids);
    assert_eq!(names(&list), vec!["HV1", "vm1", "vm2", "other"]);
    assert_eq!(list[1].status, HostStatus::Unknown);
    assert_eq!(list[2].status, HostStatus::Down);
    assert_eq!(list[1].ip, "10.0.0.5");
    assert_eq!((list[1].id, list[2].id), (3, 4));
    assert_eq!(list[2].vm_state.as_deref(), Some("Off"));
    assert!(list[1].is_child_vm && list[2].is_child_vm);
    assert_eq!(list[1].parent_host.as_deref(), Some("hv1"));
    assert!(!list[0].is_child_vm && list[3].parent_host.is_none());
    assert_eq!(ids.next, 5);
}

#[test]
fn known_machines_move_and_keep_their_data() {
    let (mut list, mut ids) = hosts(&["VM2", "a", "VM1", "hv", "b"]);
    list[2].open_ports = vec![80];
    let vms = [vm("vm1", "Running", "1.2.3.4"), vm("vm2", "Saved", "")];
    merge_vms_into_group("hv", &vms, &mut list, &mut ids);
    // In the order in which they stood, not in which they were reported.
    assert_eq!(names(&list), vec!["a", "hv", "VM2", "VM1", "b"]);
    assert_eq!(list[3].open_ports, vec![80]);
    assert_eq!(list[3].ip, "10.0.0.1");
    assert_eq!(list[2].vm_state.as_deref(), Some("Saved"));
    assert_eq!(ids.next, 6);
}

#[test]
fn machines_go_behind_the_children_there_are() {
    let (mut list, mut ids) = hosts(&["hv", "x"]);
    merge_vms_into_group("hv", &[vm("one", "Running", "")], &mut list, &mut ids);
    merge_vms_into_group("hv", &[vm("two", "Running", "")], &mut list, &mut ids);
    assert_eq!(names(&list), vec!["hv", "one", "two", "x"]);
    // Another spelling of the parent does not count its children.
    merge_vms_into_group("HV", &[vm("three", "Running", "")], &mut list, &mut ids);
    assert_eq!(names(&list), vec!["hv", "three", "one", "two", "x"]);
}

#[test]
fn without_their_parent_machines_go_last() {
    let (mut list, mut ids) = hosts(&["a", "b"]);
    merge_vms_into_group("gone", &[vm("v", "Running", "")], &mut list, &mut ids);
    assert_eq!(names(&list), vec!["a", "b", "v"]);
}

#[test]
fn merging_again_adds_no_host() {
    let (mut list, mut ids) = hosts(&["hv", "a"]);
    let vms = [vm("v1", "Running", ""), vm("V1", "Off", ""), vm("A", "Off", "")];
    merge_vms_into_group("hv", &vms, &mut list, &mut ids);
    assert_eq!(names(&list), vec!["hv", "a", "v1"]);
    assert_eq!(list[2].vm_state.as_deref(), Some("Running")); // the first report counts
    let next = ids.next;
    merge_vms_into_group("hv", &vms, &mut list, &mut ids);
    assert_eq!(list.len(), 3);
    assert_eq!(ids.next, next);
    // Now it is a host, and the last report counts.
    let v1 = list.iter().find(|h| h.name == "v1").unwrap();
    assert_eq!(v1.vm_state.as_deref(), Some("Off"));
}

#[test]
fn there_must_be_a_host_to_go_behind() {
    let (list, _) = hosts(&["v"]);
    assert!(!merge_fits(&[vm("V", "Running", "")], &list));
    assert!(merge_fits(&[], &list));
    assert!(merge_fits(&[], &Vec::new()));
    assert!(!merge_fits(&[vm("v", "Running", "")], &Vec::new()));
    let (twice, _) = hosts(&["v", "v"]);
    assert!(merge_fits(&[vm("v", "Running", "")], &twice));
}

#[test]
fn the_first_ipv4_address_is_taken() {
    let cases = [
        ("10.0.0.5", "10.0.0.5"),
        ("fe80::1,10.0.0.5,10.0.0.6", "10.0.0.5"),
        ("fe80::1.2.3.4, 10.0.0.6 ", "10.0.0.6"),
        ("fe80::1", ""),
        ("", ""),
        (",,", ""),
        ("host", ""),
        (" 1.2.3.4\t", "1.2.3.4"),
    ];
    for (given, taken) in cases {
        let (mut list, mut ids) = hosts(&["hv"]);
        merge_vms_into_group("hv", &[vm("v", "Running", given)], &mut list, &mut ids);
        assert_eq!(list[1].ip, taken);
    }
}

#[test]
fn answers_are_told_apart() {
    assert!(matches!(read_texts("ip", true, " \n", "ignored"), Ok(Inventory::Empty)));
    match read_texts("ip", true, " [{}] \n", "") {
        Ok(Inventory::Many(json)) => assert_eq!(json, "[{}]"),
        other => panic!("{other:?}"),
    }
    match read_texts("ip", true, "\t{} ", "") {
        Ok(Inventory::One(json)) => assert_eq!(json, "{}"),
        other => panic!("{other:?}"),
    }
}

#[test]
fn failures_say_what_the_shell_said() {
    let said = |stdout: &str, stderr: &str| match read_texts("1.2.3.4", false, stdout, stderr) {
        Err(message) => message,
        Ok(other) => panic!("{other:?}"),
    };
    let start = "WinRM failed for 1.2.3.4 using configured credentials: ";
    assert_eq!(said("", " "), format!("{start}PowerShell exited without an error message"));
    assert_eq!(said(" out\n", ""), format!("{start}out"));
    assert_eq!(said("", "err\n"), format!("{start}err"));
    assert_eq!(said("out", " err "), format!("{start}err out"));
}

#[test]
fn bytes_are_read_as_text() {
    let output = |success: bool, stdout: &[u8]| ShellOutput {
        success,
        stdout: stdout.to_vec(),
        stderr: b"bad \xff byte".to_vec(),
    };
    match read_output("ip", &output(true, "[\"ü\"]\r\n".as_bytes())) {
        Ok(Inventory::Many(json)) => assert_eq!(json, "[\"ü\"]"),
        other => panic!("{other:?}"),
    }
    match read_output("ip", &output(false, b"")) {
        Err(message) => assert_eq!(
            message,
            "WinRM failed for ip using configured credentials: bad \u{fffd} byte"
        ),
        other => panic!("{other:?}"),
    }
}

#[test]
fn shells_are_tried_in_order() {
    let mut search = ShellSearch::new();
    for name in ["powershell.exe", "powershell", "pwsh"] {
        match search.next() {
            ShellStep::Try(program) => assert_eq!(program, name),
            other => panic!("{other:?}"),
        }
        search.not_found(&format!("no {name}"));
    }
    match search.next() {
        ShellStep::GiveUp(message) => assert_eq!(
            message,
            "PowerShell was not found. Run netprobe from Windows, or install PowerShell as 'pwsh' in this environment. Last error: no pwsh"
        ),
        other => panic!("{other:?}"),
    }
    let never = ShellSearch { tried: 3, last_error: None };
    match never.next() {
        ShellStep::GiveUp(message) => assert!(message.ends_with("Last error: not found")),
        other => panic!("{other:?}"),
    }
}

#[test]
fn merging_the_same_list_twice_changes_nothing() {
    let (mut list, mut ids) = hosts(&["VM2", "a", "VM1", "hv", "b"]);
    let vms = [
        vm("vm1", "Running", "1.2.3.4"),
        vm("new1", "Off", "1.2.3.5"),
        vm("vm2", "Saved", ""),
        vm("new2", "Running", ""),
    ];
    merge_vms_into_group("hv", &vms, &mut list, &mut ids);
    assert_eq!(names(&list), vec!["a", "hv", "VM2", "VM1", "new1", "new2", "b"]);
    let once = format!("{list:?}");
    let next = ids.next;
    assert!(merge_fits(&vms, &list));
    merge_vms_into_group("hv", &vms, &mut list, &mut ids);
    assert_eq!(format!("{list:?}"), once);
    assert_eq!(ids.next, next);
}

#[test]
fn a_merge_goes_on_counting_ids() {
    let group = |name: &str, hosts: &[&str]| GroupConfig {
        name: name.into(),
        hosts: hosts
            .iter()
            .map(|n| HostConfig {
                name: n.to_string(),
                ip: "10.0.0.1".into(),
                parent: None,
            })
            .collect(),
    };
    let cfg = Config {
        settings: Settings {
            poll_interval: 30,
            connect_timeout_ms: 2000,
            max_concurrent_probes: 64,
            ports: None,
            default_tab: None,
        },
        group: vec![group("A", &["hv", "x"]), group("B", &["y", "z"])],
    };
    let (mut app, _) = App::from_config(&cfg, None);
    assert_eq!(app.host_ids.next, 5);
    let vms = [vm("x", "Running", ""), vm("v", "Running", ""), vm("w", "Off", "")];
    merge_vms_into_group("hv", &vms, &mut app.groups[0].hosts, &mut app.host_ids);
    let mut ids: Vec<u64> = app.groups.iter().flat_map(|g| g.hosts.iter()).map(|h| h.id).collect();
    assert_eq!(ids, vec![1, 2, 5, 6, 3, 4]);
    ids.sort();
    ids.dedup();
    assert_eq!(ids.len(), 6);
    assert_eq!(app.host_ids.next, 7);
}

#[test]
fn both_streams_are_decoded() {
    let output = ShellOutput {
        success: false,
        stdout: "ö\n".as_bytes().to_vec(),
        stderr: "ü".as_bytes().to_vec(),
    };
    match read_output("ip", &output) {
        Err(message) => {
            assert_eq!(message, "WinRM failed for ip using configured credentials: ü ö")
        }
        other => panic!("{other:?}"),
    }
}
