use tmpfs_mounts::error::MountError;
use tmpfs_mounts::table::{MountSpec, MountTable};

#[test]
fn essential_table_has_the_three_directories() {
    let table = MountTable::essential();
    assert_eq!(table.len(), 3);
    let got: Vec<(String, u32)> =
        table.entries.iter().map(|e| (e.path.clone(), e.mode)).collect();
    assert_eq!(
        got,
        vec![
            ("/tmp".to_string(), 0o1777),
            ("/var/tmp".to_string(), 0o1777),
            ("/run".to_string(), 0o755),
        ]
    );
}

#[test]
fn essential_modes_in_decimal() {
    let table = MountTable::essential();
    assert_eq!(table.entries[0].mode, 1023);
    assert_eq!(table.entries[1].mode, 1023);
    assert_eq!(table.entries[2].mode, 493);
}

#[test]
fn new_spec_keeps_path_and_mode() {
    let spec = MountSpec::new("/scratch", 0o700);
    assert_eq!(spec.path, "/scratch");
    assert_eq!(spec.mode, 0o700);
}

#[test]
fn table_keeps_the_order_of_its_entries() {
    let table = MountTable::new(vec![MountSpec::new("/b", 1), MountSpec::new("/a", 2)]);
    assert_eq!(table.len(), 2);
    assert_eq!(table.get(0).unwrap().path, "/b");
    assert_eq!(table.get(1).unwrap().path, "/a");
    assert_eq!(table.get(1).unwrap().mode, 2);
    assert!(table.get(2).is_none());
}

#[test]
fn empty_table_has_no_entry() {
    let table = MountTable::new(Vec::new());
    assert_eq!(table.len(), 0);
    assert!(table.get(0).is_none());
}

#[test]
fn messages_name_path_and_cause() {
    assert_eq!(
        MountError::create("/tmp", "Read-only file system (os error 30)").message(),
        "Failed to create /tmp: Read-only file system (os error 30)"
    );
    assert_eq!(
        MountError::mount("/var/tmp", "ENODEV: No such device").message(),
        "Failed to mount tmpfs on /var/tmp: ENODEV: No such device"
    );
    assert_eq!(
        MountError::permissions("/run", "Operation not permitted (os error 1)").message(),
        "Failed to set permissions on /run: Operation not permitted (os error 1)"
    );
}

#[test]
fn messages_with_empty_parts() {
    assert_eq!(MountError::create("", "").message(), "Failed to create : ");
    assert_eq!(MountError::mount("", "").message(), "Failed to mount tmpfs on : ");
    assert_eq!(MountError::permissions("", "").message(), "Failed to set permissions on : ");
}
