use usbip_device_manager::config::UsbDevice;
use usbip_device_manager::daemons::{joined_args, DaemonManager};
use usbip_device_manager::monitor::{sorted_unique, usb_changes, UsbChange};
use usbip_device_manager::snapshot::{diff_snapshots, same_snapshot, sort_by_instance};

fn dev(instance_id: &str) -> UsbDevice {
    UsbDevice {
        instance_id: instance_id.to_owned(),
        ..Default::default()
    }
}

#[test]
fn diff_detects_removed_and_added_by_instance_id() {
    let prev = vec![
        dev("USB\\VID_0403&PID_6001\\A50285BI"),
        dev("USB\\VID_1234&PID_5678\\STAYS"),
    ];
    let cur = vec![
        dev("USB\\VID_1234&PID_5678\\stays"),
        dev("USB\\VID_8087&PID_0A2B\\NEWONE"),
    ];
    let (removed, added) = diff_snapshots(&prev, &cur);
    assert_eq!(removed.len(), 1);
    assert_eq!(removed[0].instance_id, "USB\\VID_0403&PID_6001\\A50285BI");
    assert_eq!(added.len(), 1);
    assert_eq!(added[0].instance_id, "USB\\VID_8087&PID_0A2B\\NEWONE");
}

#[test]
fn same_state_in_any_order_is_not_a_change() {
    let mut a = vec![
        dev("USB\\VID_0403&PID_6001\\A50285BI"),
        dev("USB\\VID_1234&PID_5678\\STAYS"),
    ];
    let mut b = vec![
        dev("USB\\VID_1234&PID_5678\\STAYS"),
        dev("USB\\VID_0403&PID_6001\\A50285BI"),
    ];
    sort_by_instance(&mut a);
    sort_by_instance(&mut b);
    assert_eq!(a, b);
}

#[test]
fn sort_orders_by_instance_id_bytes() {
    let mut a = vec![dev("b"), dev("B"), dev("a"), dev("ab"), dev("")];
    sort_by_instance(&mut a);
    let ids: Vec<&str> = a.iter().map(|d| d.instance_id.as_str()).collect();
    assert_eq!(ids, vec!["", "B", "a", "ab", "b"]);
}

#[test]
fn reordered_snapshot_is_the_same_and_a_flag_change_is_not() {
    let prev = vec![dev("X1"), dev("X2")];
    let cur = vec![dev("X2"), dev("X1")];
    assert!(same_snapshot(&prev, &cur));
    let mut changed = vec![dev("X2"), dev("X1")];
    changed[0].is_attached = true;
    assert!(!same_snapshot(&prev, &changed));
    assert!(!same_snapshot(&prev, &vec![dev("X1")]));
}

#[test]
fn diff_of_equal_snapshots_is_empty() {
    let prev = vec![dev("A"), dev("B")];
    let (removed, added) = diff_snapshots(&prev, &prev);
    assert!(removed.is_empty() && added.is_empty());
    let (removed, added) = diff_snapshots(&[], &prev);
    assert!(removed.is_empty());
    assert_eq!(added.len(), 2);
}

#[test]
fn plugging_and_unplugging_are_reported_in_order() {
    let prev = vec!["A".to_owned(), "B".to_owned()];
    let cur = vec!["B".to_owned(), "C".to_owned(), "D".to_owned()];
    let changes = usb_changes(&prev, &cur);
    assert_eq!(
        changes,
        vec![
            UsbChange { instance_id: "C".to_owned(), connected: true },
            UsbChange { instance_id: "D".to_owned(), connected: true },
            UsbChange { instance_id: "A".to_owned(), connected: false },
        ]
    );
    assert!(usb_changes(&cur, &cur).is_empty());
}

#[test]
fn enumerated_ids_are_sorted_and_unique() {
    let ids = vec!["b".to_owned(), "a".to_owned(), "b".to_owned(), "c".to_owned(), "a".to_owned()];
    assert_eq!(sorted_unique(ids), vec!["a".to_owned(), "b".to_owned(), "c".to_owned()]);
    assert!(sorted_unique(Vec::new()).is_empty());
}

#[test]
fn daemon_args_are_joined_by_spaces() {
    let args = vec!["attach".to_owned(), "--hardware-id".to_owned(), "0403:6001".to_owned()];
    assert_eq!(joined_args(&args), "attach --hardware-id 0403:6001");
    assert_eq!(joined_args(&Vec::new()), "");
}

#[test]
fn daemons_are_found_by_case_insensitive_needle() {
    let mut m = DaemonManager::new();
    m.record(10, "attach --wsl --hardware-id 0403:6001 --auto-attach".to_owned());
    m.record(11, "attach --wsl --busid 1-2 --auto-attach".to_owned());
    assert!(m.attaching("0403:6001"));
    assert!(m.attaching("0403:6001".to_uppercase().as_str()));
    assert!(!m.attaching("9999:0000"));
    assert!(m.already_running("attach --wsl --busid 1-2 --auto-attach"));
    assert!(!m.already_running("attach --wsl --busid 1-3 --auto-attach"));
    assert_eq!(m.matching_pids("1-2"), vec![11]);
    assert_eq!(m.pids(), vec![10, 11]);
}

#[test]
fn stopping_keeps_the_other_daemons() {
    let mut m = DaemonManager::new();
    m.record(1, "attach --hardware-id AAAA:0001".to_owned());
    m.record(2, "attach --hardware-id BBBB:0002".to_owned());
    m.record(3, "attach --hardware-id aaaa:0001 --host-ip 1.2.3.4".to_owned());
    // pid 3 survived the kill, pid 1 did not
    m.stop_matching("AAAA:0001", &vec![2, 3]);
    assert_eq!(m.pids(), vec![2, 3]);
    m.prune(&vec![3]);
    assert_eq!(m.pids(), vec![3]);
    assert_eq!(m.stop_all(), vec![3]);
    assert!(m.pids().is_empty());
}
