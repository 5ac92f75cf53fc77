//! The data the server works on: clipboard entries, devices and users.

use crate::utils::{same_text, AiError, ErrorKind, ErrorView};
use database::{
    device_like, device_views, first_match, lemma_resolved, lemma_with_device_keeps_wf,
    lemma_with_owned_device_keeps_wf, lemma_with_user_keeps_wf, named, sequence_exhausted,
    DatabaseDevice, DatabaseUser, DatabaseUserDevice, DeviceView, Registry, RegistryView, UserRow,
};
use vstd::prelude::*;
use vstd::string::StringExecFns;

pub mod clipboard;
pub mod database;

verus! {

/// The class of a device: a closed set of tags, each with one name on the
/// wire and in the registry.
#[derive(Clone, Copy, Debug, PartialEq, Eq, Structural)]
pub enum DeviceType {
    Ios,
    Android,
    Windows,
    Mac,
    Linux,
}

/// The device type that a tag names, if it names one. Tags are matched
/// exactly: case matters.
pub open spec fn device_type_of(tag: Seq<char>) -> Option<DeviceType> {
    if tag == "Ios"@ {
        Some(DeviceType::Ios)
    } else if tag == "Android"@ {
        Some(DeviceType::Android)
    } else if tag == "Windows"@ {
        Some(DeviceType::Windows)
    } else if tag == "Mac"@ {
        Some(DeviceType::Mac)
    } else if tag == "Linux"@ {
        Some(DeviceType::Linux)
    } else {
        None
    }
}

/// The error for a tag that names no device type.
pub open spec fn invalid_device_type() -> ErrorView {
    ErrorView { kind: ErrorKind::InvalidInput, err: "Matching variant not found"@ }
}

impl DeviceType {
    /// The name of the device type.
    pub open spec fn tag(self) -> Seq<char> {
        match self {
            DeviceType::Ios => "Ios"@,
            DeviceType::Android => "Android"@,
            DeviceType::Windows => "Windows"@,
            DeviceType::Mac => "Mac"@,
            DeviceType::Linux => "Linux"@,
        }
    }

    /// The name of the device type, as text.
    pub fn to_string(self) -> (text: String)
        ensures
            text@ == self.tag(),
    {
        match self {
            DeviceType::Ios => String::from_str("Ios"),
            DeviceType::Android => String::from_str("Android"),
            DeviceType::Windows => String::from_str("Windows"),
            DeviceType::Mac => String::from_str("Mac"),
            DeviceType::Linux => String::from_str("Linux"),
        }
    }

    /// Reads a device type from its name; any other text is invalid input.
    pub fn parse(tag: &str) -> (r: Result<DeviceType, AiError>)
        ensures
            match r {
                Ok(t) => device_type_of(tag@) == Some(t),
                Err(e) => device_type_of(tag@) is None && e@ == invalid_device_type(),
            },
    {
        if same_text(tag, "Ios") {
            Ok(DeviceType::Ios)
        } else if same_text(tag, "Android") {
            Ok(DeviceType::Android)
        } else if same_text(tag, "Windows") {
            Ok(DeviceType::Windows)
        } else if same_text(tag, "Mac") {
            Ok(DeviceType::Mac)
        } else if same_text(tag, "Linux") {
            Ok(DeviceType::Linux)
        } else {
            Err(AiError::with_kind(ErrorKind::InvalidInput, "Matching variant not found"))
        }
    }
}

/// Every device type is read back from its own name.
pub proof fn lemma_tag_round_trip(t: DeviceType)
    ensures
        device_type_of(t.tag()) == Some(t),
{
    reveal_strlit("Ios");
    reveal_strlit("Android");
    reveal_strlit("Windows");
    reveal_strlit("Mac");
    reveal_strlit("Linux");
    assert("Ios"@.len() == 3);
    assert("Android"@.len() == 7);
    assert("Windows"@.len() == 7);
    assert("Mac"@.len() == 3);
    assert("Linux"@.len() == 5);
    assert("Ios"@[0] == 'I');
    assert("Mac"@[0] == 'M');
    assert("Android"@[0] == 'A');
    assert("Windows"@[0] == 'W');
}

/// A device, as the registry holds it.
pub type Device = DatabaseDevice;

/// The outcome of resolving the device that a client claims by the name
/// `name` and the class name `tag`: the device and the registry after it,
/// or the error.
pub open spec fn claimed(db: RegistryView, name: Seq<char>, tag: Seq<char>) -> Result<
    (DeviceView, RegistryView),
    ErrorView,
> {
    match device_type_of(tag) {
        None => Err(invalid_device_type()),
        Some(device_type) => db.resolved(name, device_type),
    }
}

/// A device as a client names it: by its human name and the name of its
/// class.
#[derive(Debug)]
pub struct InputDevice {
    pub name: String,
    pub device_type: String,
}

impl InputDevice {
    /// Resolves the claimed device. A class name that names no device type
    /// is invalid input. Else the device is the registered one of that
    /// name and class, or is registered now, with an empty notification
    /// token and no owner. On an error the registry is as it was.
    pub fn parse(self, db: &mut Registry) -> (r: Result<Device, AiError>)
        ensures
            match claimed(old(db)@, self.name@, self.device_type@) {
                Ok((d, after)) => r matches Ok(device) && device@ == d && final(db)@ == after,
                Err(e) => r matches Err(x) && x@ == e && final(db)@ == old(db)@,
            },
            old(db)@.wf() ==> final(db)@.wf(),
    {
        match DeviceType::parse(self.device_type.as_str()) {
            Err(e) => Err(e),
            Ok(device_type) => DatabaseDevice::get_device(db, self.name, device_type),
        }
    }
}

/// The mathematical value of a user: identity, name and owned devices.
pub struct UserView {
    pub id: u64,
    pub name: Seq<char>,
    pub devices: Seq<DeviceView>,
}

/// A user with the devices it owns.
#[derive(Debug)]
pub struct User {
    pub id: u64,
    pub name: String,
    pub devices: Vec<Device>,
}

impl View for User {
    type V = UserView;

    open spec fn view(&self) -> UserView {
        UserView { id: self.id, name: self.name@, devices: device_views(self.devices@) }
    }
}

/// The user of the row `row` with the devices the registry gives it.
pub open spec fn user_of(db: RegistryView, row: UserRow) -> UserView {
    UserView { id: row.id, name: row.name, devices: db.devices_of(row.id) }
}

/// The first user that owns `device_id`, with its devices, if there is
/// one.
pub open spec fn owner(db: RegistryView, device_id: u64) -> Option<UserView> {
    if db.owners_of(device_id).len() > 0 {
        Some(user_of(db, db.owners_of(device_id)[0]))
    } else {
        None
    }
}

/// The outcome of building the user named `name`: the first registered
/// one with its devices and the registry as it is; or, where there is
/// none, a new user without devices under the next id and the registry
/// with it; or the error of a table whose ids are used up.
pub open spec fn built(db: RegistryView, name: Seq<char>) -> Result<
    (UserView, RegistryView),
    ErrorView,
> {
    match first_match(db.users, named(name)) {
        Some(row) => Ok((user_of(db, row), db)),
        None => if db.user_seq == u64::MAX {
            Err(sequence_exhausted())
        } else {
            let id = (db.user_seq + 1) as u64;
            Ok(
                (
                    UserView { id, name, devices: Seq::empty() },
                    db.with_user(UserRow { id, name }),
                ),
            )
        },
    }
}

/// What registering a device for a user comes to.
pub struct DeviceAdded {
    /// The registry afterwards.
    pub db: RegistryView,
    /// The user afterwards.
    pub user: UserView,
    /// The error, if the registration failed.
    pub error: Option<ErrorView>,
}

/// The outcome of registering, for `user`, a device named `name` of class
/// `device_type` with the token `notification`. Where a device of that
/// name and class is registered already, nothing changes. Else the device
/// is appended to the registry, to its junction table and to the user's
/// devices. When the ids of the devices are used up nothing changes; when
/// those of the junction table are, the device stays registered without
/// an owner.
pub open spec fn device_added(
    db: RegistryView,
    user: UserView,
    name: Seq<char>,
    device_type: DeviceType,
    notification: Seq<char>,
) -> DeviceAdded {
    match first_match(db.devices, device_like(name, device_type)) {
        Some(_) => DeviceAdded { db, user, error: None },
        None => {
            let device = DeviceView {
                id: (db.device_seq + 1) as u64,
                name,
                notification,
                device_type,
            };
            if db.device_seq == u64::MAX {
                DeviceAdded { db, user, error: Some(sequence_exhausted()) }
            } else if db.user_device_seq == u64::MAX {
                DeviceAdded { db: db.with_device(device), user, error: Some(sequence_exhausted()) }
            } else {
                DeviceAdded {
                    db: db.with_device(device).with_link(user.id, device.id),
                    user: UserView { devices: user.devices.push(device), ..user },
                    error: None,
                }
            }
        },
    }
}

/// Resolving a claimed device, building a user and registering a device
/// for a user all keep a well-formed registry well formed.
pub proof fn lemma_registry_stays_wf(
    db: RegistryView,
    user: UserView,
    name: Seq<char>,
    tag: Seq<char>,
    device_type: DeviceType,
    notification: Seq<char>,
)
    requires
        db.wf(),
    ensures
        claimed(db, name, tag) matches Ok((_, after)) ==> after.wf(),
        built(db, name) matches Ok((_, after)) ==> after.wf(),
        device_added(db, user, name, device_type, notification).db.wf(),
{
    if device_type_of(tag) is Some {
        lemma_resolved(db, name, device_type_of(tag)->Some_0);
    }
    if db.user_seq < u64::MAX {
        lemma_with_user_keeps_wf(db, name);
    }
    let device = DeviceView { id: (db.device_seq + 1) as u64, name, notification, device_type };
    if first_match(db.devices, device_like(name, device_type)) is None && db.device_seq
        < u64::MAX {
        lemma_with_device_keeps_wf(db, device);
        if db.user_device_seq < u64::MAX {
            lemma_with_owned_device_keeps_wf(db, device, user.id);
        }
    }
}

/// The error for a device that no user owns.
pub open spec fn user_not_found() -> ErrorView {
    ErrorView { kind: ErrorKind::NotFound, err: "device user not found"@ }
}

fn load_user(db: &Registry, row: DatabaseUser) -> (user: User)
    ensures
        user@ == user_of(db@, row@),
{
    let devices = match DatabaseUserDevice::get_user_devices(db, row.id) {
        Ok(devices) => devices,
        Err(_) => Vec::new(),
    };
    User { id: row.id, name: row.name, devices }
}

impl User {
    /// The user named `name`: the registered one with its devices, or a
    /// new one without devices, registered under the next id. On an error
    /// the registry is as it was.
    pub fn build(db: &mut Registry, name: String) -> (r: Result<User, AiError>)
        ensures
            match built(old(db)@, name@) {
                Ok((u, after)) => r matches Ok(user) && user@ == u && final(db)@ == after,
                Err(e) => r matches Err(x) && x@ == e && final(db)@ == old(db)@,
            },
            old(db)@.wf() ==> final(db)@.wf(),
    {
        let found = match DatabaseUser::find_user(db, name.clone()) {
            Ok(found) => found,
            Err(_) => None,
        };
        if let Some(row) = found {
            return Ok(load_user(db, row));
        }
        match DatabaseUser::insert_user(db, name.clone()) {
            Err(e) => Err(e),
            Ok(id) => {
                let user = User { id, name, devices: Vec::new() };
                assert(user@.devices =~= Seq::empty());
                Ok(user)
            },
        }
    }

    /// The first user named `name` with its devices, if there is one.
    pub fn find_user(db: &Registry, name: String) -> (r: Result<Option<User>, AiError>)
        ensures
            r matches Ok(found) && match first_match(db@.users, named(name@)) {
                Some(row) => found matches Some(user) && user@ == user_of(db@, row),
                None => found is None,
            },
    {
        let found = match DatabaseUser::find_user(db, name) {
            Ok(found) => found,
            Err(_) => None,
        };
        match found {
            Some(row) => Ok(Some(load_user(db, row))),
            None => Ok(None),
        }
    }

    /// The first user that owns `device`, with its devices. A device
    /// without an owner is not found.
    pub fn find_user_from_device(db: &Registry, device: &Device) -> (r: Result<User, AiError>)
        ensures
            match owner(db@, device.id) {
                Some(u) => r matches Ok(user) && user@ == u,
                None => r matches Err(e) && e@ == user_not_found(),
            },
    {
        let mut owners = match DatabaseUserDevice::get_device_users(db, device.id) {
            Ok(owners) => owners,
            Err(_) => Vec::new(),
        };
        if owners.len() > 0 {
            let row = owners.swap_remove(0);
            Ok(load_user(db, row))
        } else {
            Err(AiError::with_kind(ErrorKind::NotFound, "device user not found"))
        }
    }

    /// Registers a device for this user, unless a device of that name and
    /// class is registered already: see [`device_added`].
    pub fn add_device(
        &mut self,
        db: &mut Registry,
        name: String,
        device_type: DeviceType,
        notification: String,
    ) -> (r: Result<(), AiError>)
        ensures
            ({
                let outcome = device_added(
                    old(db)@,
                    old(self)@,
                    name@,
                    device_type,
                    notification@,
                );
                &&& final(db)@ == outcome.db
                &&& final(self)@ == outcome.user
                &&& match outcome.error {
                    None => r is Ok,
                    Some(e) => r matches Err(x) && x@ == e,
                }
            }),
            old(db)@.wf() ==> final(db)@.wf(),
    {
        proof {
            if db@.wf() {
                lemma_registry_stays_wf(db@, self@, name@, name@, device_type, notification@);
            }
        }
        let found = match DatabaseDevice::find_device(db, name.clone(), device_type) {
            Ok(found) => found,
            Err(_) => None,
        };
        if found.is_none() {
            let device = match DatabaseDevice::insert_device(db, name, device_type, notification) {
                Ok(device) => device,
                Err(e) => { return Err(e); },
            };
            match DatabaseUserDevice::insert_user_device(db, self.id, device.id) {
                Ok(_) => {},
                Err(e) => { return Err(e); },
            }
            let ghost before = self.devices@;
            self.devices.push(device);
            proof {
                assert(device_views(self.devices@) =~= device_views(before).push(device@));
            }
        }
        Ok(())
    }
}

} // verus!
