use com_notifier::ports::PortSet;
use com_notifier::registry::{
    Snapshot, SnapshotStep, ERROR_MORE_DATA, ERROR_NO_MORE_ITEMS, ERROR_SUCCESS, FIRST_ROOM,
    REG_SZ,
};
use com_notifier::utf16::wide_nul;
use windows_sys::Win32::Foundation;
use windows_sys::Win32::System::Registry;

fn stored(label: &str) -> Vec<u8> {
    wide_nul(label).iter().flat_map(|u| u.to_le_bytes()).collect()
}

fn names(set: &PortSet) -> Vec<&str> {
    set.names().iter().map(|n| n.as_str()).collect()
}

fn run(replies: &[(u32, u32, Vec<u8>)]) -> PortSet {
    let mut snapshot = Snapshot::new();
    assert_eq!(snapshot.step(), SnapshotStep::OpenKey);
    snapshot.opened(ERROR_SUCCESS);
    for (i, (status, value_type, data)) in replies.iter().enumerate() {
        let index = i as u32;
        assert_eq!(snapshot.step(), SnapshotStep::QueryValue(index));
        snapshot.value(index, *status, *value_type, data);
    }
    let index = replies.len() as u32;
    assert_eq!(snapshot.step(), SnapshotStep::QueryValue(index));
    snapshot.value(index, ERROR_NO_MORE_ITEMS, 0, &[]);
    assert_eq!(snapshot.step(), SnapshotStep::CloseKey);
    snapshot.closed();
    assert_eq!(snapshot.step(), SnapshotStep::Complete);
    snapshot.finish()
}

#[test]
fn codes_are_those_of_the_system() {
    assert_eq!(ERROR_SUCCESS, Foundation::ERROR_SUCCESS);
    assert_eq!(ERROR_MORE_DATA, Foundation::ERROR_MORE_DATA);
    assert_eq!(ERROR_NO_MORE_ITEMS, Foundation::ERROR_NO_MORE_ITEMS);
    assert_eq!(REG_SZ, Registry::REG_SZ);
}

#[test]
fn absent_key_gives_no_ports() {
    let mut snapshot = Snapshot::new();
    snapshot.opened(2);
    assert_eq!(snapshot.step(), SnapshotStep::Complete);
    assert!(names(&snapshot.finish()).is_empty());
}

#[test]
fn key_without_values_gives_no_ports() {
    assert!(names(&run(&[])).is_empty());
}

#[test]
fn every_string_value_is_a_port() {
    let ports = run(&[
        (0, REG_SZ, stored("COM3")),
        (0, REG_SZ, stored("COM10")),
    ]);
    assert_eq!(names(&ports), vec!["COM3", "COM10"]);
}

#[test]
fn a_label_counts_once() {
    let ports = run(&[
        (0, REG_SZ, stored("COM3")),
        (0, REG_SZ, stored("COM4")),
        (0, REG_SZ, stored("COM3")),
    ]);
    assert_eq!(names(&ports), vec!["COM3", "COM4"]);
}

#[test]
fn other_values_are_skipped() {
    let ports = run(&[
        (0, 4, vec![67, 0, 79, 0]),
        (5, REG_SZ, stored("COM9")),
        (0, REG_SZ, vec![67]),
        (0, REG_SZ, vec![]),
        (0, REG_SZ, stored("")),
        (0, REG_SZ, stored("COM5")),
    ]);
    assert_eq!(names(&ports), vec!["COM5"]);
}

/// Takes a snapshot of a key that holds these values, as the registry would answer.
fn scan(values: &[(u32, Vec<u8>)]) -> PortSet {
    let mut snapshot = Snapshot::new();
    snapshot.opened(ERROR_SUCCESS);
    while let SnapshotStep::QueryValue(index) = snapshot.step() {
        match values.get(index as usize) {
            None => snapshot.value(index, ERROR_NO_MORE_ITEMS, 0, &[]),
            Some((value_type, data)) if data.len() > snapshot.room() as usize => {
                snapshot.value(index, ERROR_MORE_DATA, *value_type, &[])
            }
            Some((value_type, data)) => {
                snapshot.value(index, ERROR_SUCCESS, *value_type, data)
            }
        }
    }
    snapshot.closed();
    snapshot.finish()
}

#[test]
fn long_labels_are_found() {
    let long = "A".repeat(70);
    let longer = "B".repeat(1000);
    assert_eq!(stored(&long).len(), 142);
    let ports = scan(&[
        (REG_SZ, stored("COM1")),
        (REG_SZ, stored(&long)),
        (3, vec![7; 5000]),
        (REG_SZ, stored(&longer)),
        (REG_SZ, stored("COM2")),
    ]);
    assert_eq!(names(&ports), vec!["COM1", &long, &longer, "COM2"]);
}

#[test]
fn value_that_does_not_fit_is_asked_for_again() {
    let mut snapshot = Snapshot::new();
    snapshot.opened(ERROR_SUCCESS);
    assert_eq!(snapshot.room(), FIRST_ROOM);
    assert_eq!(FIRST_ROOM, 128);
    snapshot.value(0, ERROR_MORE_DATA, REG_SZ, &[65, 0]);
    assert_eq!(snapshot.step(), SnapshotStep::QueryValue(0));
    assert_eq!(snapshot.room(), 256);
    let label = "A".repeat(70);
    snapshot.value(0, ERROR_SUCCESS, REG_SZ, &stored(&label));
    assert_eq!(snapshot.step(), SnapshotStep::QueryValue(1));
    assert_eq!(snapshot.room(), 256);
    snapshot.value(1, ERROR_NO_MORE_ITEMS, 0, &[]);
    snapshot.closed();
    assert_eq!(names(&snapshot.finish()), vec![label.as_str()]);
}

#[test]
fn value_that_never_fits_is_skipped_in_the_end() {
    let mut snapshot = Snapshot::new();
    snapshot.opened(ERROR_SUCCESS);
    let mut asked = 0;
    while snapshot.step() == SnapshotStep::QueryValue(0) {
        snapshot.value(0, ERROR_MORE_DATA, REG_SZ, &[]);
        asked += 1;
    }
    assert_eq!(asked, 26);
    assert_eq!(snapshot.room(), u32::MAX);
    assert_eq!(snapshot.step(), SnapshotStep::QueryValue(1));
}

#[test]
fn port_set_is_a_set() {
    let mut a = PortSet::new();
    assert!(a.insert("COM1".to_string()));
    assert!(!a.insert("COM1".to_string()));
    assert!(a.insert("COM2".to_string()));
    let mut b = PortSet::new();
    b.insert("COM2".to_string());
    b.insert("COM3".to_string());
    assert!(a.contains(&"COM2".to_string()));
    assert!(!a.contains(&"COM3".to_string()));
    assert_eq!(a.difference(&b), vec!["COM1".to_string()]);
    assert_eq!(b.difference(&a), vec!["COM3".to_string()]);
    assert!(a.difference(&a).is_empty());
}
