use connect_any_server::datalayer::database::{
    DatabaseDevice, DatabaseUser, DatabaseUserDevice, Registry,
};
use connect_any_server::datalayer::{DeviceType, InputDevice, User};
use connect_any_server::utils::ErrorKind;

fn ids_of(devices: &[DatabaseDevice]) -> Vec<u64> {
    devices.iter().map(|d| d.id).collect()
}

#[test]
fn new_registry_is_empty() {
    let db = Registry::new();
    assert!(db.users.is_empty());
    assert!(db.devices.is_empty());
    assert!(db.user_device.is_empty());
    assert_eq!((db.user_seq, db.device_seq, db.user_device_seq), (0, 0, 0));
}

#[test]
fn users_get_the_next_id() {
    let mut db = Registry::new();
    assert_eq!(DatabaseUser::insert_user(&mut db, "ann".to_string()).unwrap(), 1);
    assert_eq!(DatabaseUser::insert_user(&mut db, "bob".to_string()).unwrap(), 2);
    assert_eq!(db.user_seq, 2);
    assert_eq!(db.users.len(), 2);
    assert_eq!(db.users[1].name, "bob");
    let ann = DatabaseUser::find_user(&db, "ann".to_string()).unwrap().unwrap();
    assert_eq!(ann.id, 1);
    assert!(DatabaseUser::find_user(&db, "Ann".to_string()).unwrap().is_none());
    let bob = DatabaseUser::get_user(&db, 2).unwrap().unwrap();
    assert_eq!(bob.name, "bob");
    assert!(DatabaseUser::get_user(&db, 3).unwrap().is_none());
}

#[test]
fn find_user_returns_the_first_of_a_name() {
    let mut db = Registry::new();
    DatabaseUser::insert_user(&mut db, "ann".to_string()).unwrap();
    DatabaseUser::insert_user(&mut db, "ann".to_string()).unwrap();
    assert_eq!(DatabaseUser::find_user(&db, "ann".to_string()).unwrap().unwrap().id, 1);
}

#[test]
fn deleted_ids_are_not_given_again() {
    let mut db = Registry::new();
    DatabaseUser::insert_user(&mut db, "ann".to_string()).unwrap();
    DatabaseUser::insert_user(&mut db, "bob".to_string()).unwrap();
    let ann = DatabaseUser::find_user(&db, "ann".to_string()).unwrap().unwrap();
    ann.delete_user(&mut db).unwrap();
    assert_eq!(db.users.len(), 1);
    assert_eq!(db.users[0].name, "bob");
    assert!(DatabaseUser::get_user(&db, 1).unwrap().is_none());
    assert_eq!(DatabaseUser::insert_user(&mut db, "cid".to_string()).unwrap(), 3);
    ann.delete_user(&mut db).unwrap();
    assert_eq!(db.users.len(), 2);
}

#[test]
fn exhausted_user_ids_fail_and_change_nothing() {
    let mut db = Registry::new();
    db.user_seq = u64::MAX - 1;
    assert_eq!(DatabaseUser::insert_user(&mut db, "ann".to_string()).unwrap(), u64::MAX);
    let err = DatabaseUser::insert_user(&mut db, "bob".to_string()).unwrap_err();
    assert_eq!(err.kind, ErrorKind::UpstreamFailure);
    assert_eq!(err.to_string(), "id sequence exhausted");
    assert_eq!(db.users.len(), 1);
    assert_eq!(db.user_seq, u64::MAX);
}

#[test]
fn devices_are_found_by_name_and_class() {
    let mut db = Registry::new();
    let phone =
        DatabaseDevice::insert_device(&mut db, "phone".to_string(), DeviceType::Ios, "t1".to_string())
            .unwrap();
    assert_eq!(phone.id, 1);
    assert_eq!(phone.name, "phone");
    assert_eq!(phone.notification, "t1");
    assert_eq!(phone.device_type, DeviceType::Ios);
    let other = DatabaseDevice::insert_device(
        &mut db,
        "phone".to_string(),
        DeviceType::Android,
        "t2".to_string(),
    )
    .unwrap();
    assert_eq!(other.id, 2);
    let found = DatabaseDevice::find_device(&db, "phone".to_string(), DeviceType::Android)
        .unwrap()
        .unwrap();
    assert_eq!(found.id, 2);
    assert_eq!(found.notification, "t2");
    assert!(DatabaseDevice::find_device(&db, "phone".to_string(), DeviceType::Mac)
        .unwrap()
        .is_none());
    assert!(DatabaseDevice::find_device(&db, "Phone".to_string(), DeviceType::Ios)
        .unwrap()
        .is_none());
    phone.delete_device(&mut db).unwrap();
    assert_eq!(ids_of(&db.devices), vec![2]);
    assert_eq!(db.device_seq, 2);
}

#[test]
fn exhausted_device_ids_fail_and_change_nothing() {
    let mut db = Registry::new();
    db.device_seq = u64::MAX;
    let err =
        DatabaseDevice::insert_device(&mut db, "d".to_string(), DeviceType::Mac, String::new())
            .unwrap_err();
    assert_eq!(err.to_string(), "id sequence exhausted");
    assert!(db.devices.is_empty());
    let err = DatabaseDevice::get_device(&mut db, "d".to_string(), DeviceType::Mac).unwrap_err();
    assert_eq!(err.kind, ErrorKind::UpstreamFailure);
    assert!(db.devices.is_empty());
}

#[test]
fn get_device_registers_once() {
    let mut db = Registry::new();
    let first = DatabaseDevice::get_device(&mut db, "pc".to_string(), DeviceType::Windows).unwrap();
    assert_eq!(first.id, 1);
    assert_eq!(first.notification, "");
    let again = DatabaseDevice::get_device(&mut db, "pc".to_string(), DeviceType::Windows).unwrap();
    assert_eq!(again.id, 1);
    assert_eq!(db.devices.len(), 1);
    let other = DatabaseDevice::get_device(&mut db, "pc".to_string(), DeviceType::Linux).unwrap();
    assert_eq!(other.id, 2);
    assert_eq!(db.devices.len(), 2);
}

#[test]
fn junction_rows_join_users_and_devices() {
    let mut db = Registry::new();
    let ann = DatabaseUser::insert_user(&mut db, "ann".to_string()).unwrap();
    let bob = DatabaseUser::insert_user(&mut db, "bob".to_string()).unwrap();
    for name in ["a", "b", "c"] {
        DatabaseDevice::insert_device(&mut db, name.to_string(), DeviceType::Linux, String::new())
            .unwrap();
    }
    DatabaseUserDevice::insert_user_device(&mut db, ann, 3).unwrap();
    DatabaseUserDevice::insert_user_device(&mut db, bob, 2).unwrap();
    DatabaseUserDevice::insert_user_device(&mut db, ann, 1).unwrap();
    assert_eq!(db.user_device.len(), 3);
    assert_eq!(db.user_device[2], DatabaseUserDevice { id: 3, user_id: ann, device_id: 1 });
    let devices = DatabaseUserDevice::get_user_devices(&db, ann).unwrap();
    assert_eq!(ids_of(&devices), vec![1, 3]);
    assert_eq!(ids_of(&DatabaseUserDevice::get_user_devices(&db, bob).unwrap()), vec![2]);
    assert!(DatabaseUserDevice::get_user_devices(&db, 9).unwrap().is_empty());
    let owners = DatabaseUserDevice::get_device_users(&db, 2).unwrap();
    assert_eq!(owners.len(), 1);
    assert_eq!(owners[0].name, "bob");
    let link = db.user_device[1];
    link.delete_user_device(&mut db).unwrap();
    assert!(DatabaseUserDevice::get_device_users(&db, 2).unwrap().is_empty());
    assert_eq!(db.user_device.len(), 2);
}

#[test]
fn a_device_linked_twice_is_listed_once() {
    let mut db = Registry::new();
    let ann = DatabaseUser::insert_user(&mut db, "ann".to_string()).unwrap();
    DatabaseDevice::insert_device(&mut db, "a".to_string(), DeviceType::Linux, String::new())
        .unwrap();
    DatabaseUserDevice::insert_user_device(&mut db, ann, 1).unwrap();
    DatabaseUserDevice::insert_user_device(&mut db, ann, 1).unwrap();
    assert_eq!(ids_of(&DatabaseUserDevice::get_user_devices(&db, ann).unwrap()), vec![1]);
    assert_eq!(DatabaseUserDevice::get_device_users(&db, 1).unwrap().len(), 1);
}

#[test]
fn exhausted_junction_ids_fail_and_change_nothing() {
    let mut db = Registry::new();
    db.user_device_seq = u64::MAX;
    let err = DatabaseUserDevice::insert_user_device(&mut db, 1, 1).unwrap_err();
    assert_eq!(err.to_string(), "id sequence exhausted");
    assert!(db.user_device.is_empty());
}

#[test]
fn build_finds_or_creates_the_user() {
    let mut db = Registry::new();
    let mut ann = User::build(&mut db, "ann".to_string()).unwrap();
    assert_eq!(ann.id, 1);
    assert_eq!(ann.name, "ann");
    assert!(ann.devices.is_empty());
    ann.add_device(&mut db, "phone".to_string(), DeviceType::Ios, "tok".to_string()).unwrap();
    assert_eq!(ids_of(&ann.devices), vec![1]);
    let again = User::build(&mut db, "ann".to_string()).unwrap();
    assert_eq!(again.id, 1);
    assert_eq!(ids_of(&again.devices), vec![1]);
    assert_eq!(again.devices[0].notification, "tok");
    assert_eq!(db.users.len(), 1);
    let bob = User::build(&mut db, "bob".to_string()).unwrap();
    assert_eq!(bob.id, 2);
    assert!(bob.devices.is_empty());
}

#[test]
fn build_fails_when_user_ids_are_used_up() {
    let mut db = Registry::new();
    db.user_seq = u64::MAX;
    let err = User::build(&mut db, "ann".to_string()).unwrap_err();
    assert_eq!(err.kind, ErrorKind::UpstreamFailure);
    assert!(db.users.is_empty());
}

#[test]
fn find_user_loads_the_devices() {
    let mut db = Registry::new();
    assert!(User::find_user(&db, "ann".to_string()).unwrap().is_none());
    let mut ann = User::build(&mut db, "ann".to_string()).unwrap();
    ann.add_device(&mut db, "phone".to_string(), DeviceType::Ios, String::new()).unwrap();
    ann.add_device(&mut db, "desk".to_string(), DeviceType::Linux, String::new()).unwrap();
    let found = User::find_user(&db, "ann".to_string()).unwrap().unwrap();
    assert_eq!(found.id, 1);
    assert_eq!(ids_of(&found.devices), vec![1, 2]);
}

#[test]
fn add_device_registers_a_name_and_class_once() {
    let mut db = Registry::new();
    let mut ann = User::build(&mut db, "ann".to_string()).unwrap();
    let mut bob = User::build(&mut db, "bob".to_string()).unwrap();
    ann.add_device(&mut db, "phone".to_string(), DeviceType::Ios, "t".to_string()).unwrap();
    ann.add_device(&mut db, "phone".to_string(), DeviceType::Ios, "u".to_string()).unwrap();
    bob.add_device(&mut db, "phone".to_string(), DeviceType::Ios, "v".to_string()).unwrap();
    assert_eq!(db.devices.len(), 1);
    assert_eq!(db.user_device.len(), 1);
    assert_eq!(ann.devices.len(), 1);
    assert!(bob.devices.is_empty());
    bob.add_device(&mut db, "phone".to_string(), DeviceType::Android, "w".to_string()).unwrap();
    assert_eq!(ids_of(&bob.devices), vec![2]);
    assert_eq!(db.user_device[1], DatabaseUserDevice { id: 2, user_id: 2, device_id: 2 });
}

#[test]
fn add_device_without_junction_ids_leaves_the_device_ownerless() {
    let mut db = Registry::new();
    let mut ann = User::build(&mut db, "ann".to_string()).unwrap();
    db.user_device_seq = u64::MAX;
    let err = ann
        .add_device(&mut db, "phone".to_string(), DeviceType::Ios, String::new())
        .unwrap_err();
    assert_eq!(err.to_string(), "id sequence exhausted");
    assert_eq!(db.devices.len(), 1);
    assert!(db.user_device.is_empty());
    assert!(ann.devices.is_empty());
}

#[test]
fn owner_of_a_device() {
    let mut db = Registry::new();
    let mut ann = User::build(&mut db, "ann".to_string()).unwrap();
    ann.add_device(&mut db, "phone".to_string(), DeviceType::Ios, String::new()).unwrap();
    ann.add_device(&mut db, "desk".to_string(), DeviceType::Linux, String::new()).unwrap();
    let owner = User::find_user_from_device(&db, &ann.devices[1]).unwrap();
    assert_eq!(owner.id, 1);
    assert_eq!(owner.name, "ann");
    assert_eq!(ids_of(&owner.devices), vec![1, 2]);
    let stray = DatabaseDevice::get_device(&mut db, "tab".to_string(), DeviceType::Android).unwrap();
    let err = User::find_user_from_device(&db, &stray).unwrap_err();
    assert_eq!(err.kind, ErrorKind::NotFound);
    assert_eq!(err.to_string(), "device user not found");
}

#[test]
fn claimed_device_is_resolved_or_rejected() {
    let mut db = Registry::new();
    let claim = InputDevice { name: "pc".to_string(), device_type: "Windows".to_string() };
    let device = claim.parse(&mut db).unwrap();
    assert_eq!(device.id, 1);
    assert_eq!(device.device_type, DeviceType::Windows);
    let bad = InputDevice { name: "pc".to_string(), device_type: "windows".to_string() };
    let err = bad.parse(&mut db).unwrap_err();
    assert_eq!(err.kind, ErrorKind::InvalidInput);
    assert_eq!(err.to_string(), "Matching variant not found");
    assert_eq!(db.devices.len(), 1);
}
