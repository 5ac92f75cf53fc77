//! Registering a user with a device, and listing the devices of a user.

use super::{bool_failure, bool_success, return_base_res, return_bool_res, BaseRes, BoolRes};
use crate::datalayer::database::{first_match, named, Registry};
use crate::datalayer::{
    built, device_added, device_type_of, invalid_device_type, user_of, DeviceType, User,
};
use crate::utils::{AiError, ErrorKind, ErrorView};
use vstd::prelude::*;

verus! {

/// The device of a request to register a user.
#[derive(Debug)]
pub struct InputAddDevice {
    pub name: String,
    pub device_type: String,
    pub notification: String,
}

/// A request to register the user `name` with `device`.
#[derive(Debug)]
pub struct InputAddUser {
    pub name: String,
    pub device: InputAddDevice,
}

/// A request for the user `name` and its devices.
#[derive(Debug)]
pub struct InputGetUser {
    pub name: String,
}

/// The outcome of a request to register the user `name` with a device:
/// the registry afterwards and the error, if there is one. The user is
/// found or created first, then the device type is read, then the device
/// is registered for the user.
pub open spec fn user_added(
    db: crate::datalayer::database::RegistryView,
    name: Seq<char>,
    device_name: Seq<char>,
    tag: Seq<char>,
    notification: Seq<char>,
) -> (crate::datalayer::database::RegistryView, Option<ErrorView>) {
    match built(db, name) {
        Err(e) => (db, Some(e)),
        Ok((user, after)) => match device_type_of(tag) {
            None => (after, Some(invalid_device_type())),
            Some(device_type) => {
                let outcome = device_added(after, user, device_name, device_type, notification);
                (outcome.db, outcome.error)
            },
        },
    }
}

fn register_user(db: &mut Registry, payload: InputAddUser) -> (r: Result<(), AiError>)
    ensures
        ({
            let outcome = user_added(
                old(db)@,
                payload.name@,
                payload.device.name@,
                payload.device.device_type@,
                payload.device.notification@,
            );
            &&& final(db)@ == outcome.0
            &&& match outcome.1 {
                None => r is Ok,
                Some(e) => r matches Err(x) && x@ == e,
            }
        }),
        old(db)@.wf() ==> final(db)@.wf(),
{
    let mut user = match User::build(db, payload.name) {
        Ok(user) => user,
        Err(e) => { return Err(e); },
    };
    let device_type = match DeviceType::parse(payload.device.device_type.as_str()) {
        Ok(device_type) => device_type,
        Err(e) => { return Err(e); },
    };
    user.add_device(db, payload.device.name, device_type, payload.device.notification)
}

/// Registers a user with a device: see [`user_added`]. The answer is a
/// success, or the failure with the text of the error.
pub fn add_user(db: &mut Registry, payload: InputAddUser) -> (answer: BoolRes)
    ensures
        ({
            let outcome = user_added(
                old(db)@,
                payload.name@,
                payload.device.name@,
                payload.device.device_type@,
                payload.device.notification@,
            );
            &&& final(db)@ == outcome.0
            &&& answer@ == match outcome.1 {
                None => bool_success(),
                Some(e) => bool_failure(e),
            }
        }),
        old(db)@.wf() ==> final(db)@.wf(),
{
    return_bool_res(register_user(db, payload))
}

/// The error for a name that no user has.
pub open spec fn no_such_user() -> ErrorView {
    ErrorView { kind: ErrorKind::NotFound, err: "not find user"@ }
}

fn lookup_user(db: &Registry, username: InputGetUser) -> (r: Result<User, AiError>)
    ensures
        match first_match(db@.users, named(username.name@)) {
            Some(row) => r matches Ok(user) && user@ == user_of(db@, row),
            None => r matches Err(e) && e@ == no_such_user(),
        },
{
    let found = match User::find_user(db, username.name) {
        Ok(found) => found,
        Err(e) => { return Err(e); },
    };
    match found {
        Some(user) => Ok(user),
        None => Err(AiError::with_kind(ErrorKind::NotFound, "not find user")),
    }
}

/// The user named as asked, with its devices; a name that no user has is
/// answered with a failure.
pub fn get_user_device(db: &Registry, username: InputGetUser) -> (answer: BaseRes<User>)
    ensures
        match first_match(db@.users, named(username.name@)) {
            Some(row) => {
                &&& answer.code == super::CODE_SUCCESS
                &&& answer.msg@ == "success"@
                &&& answer.data matches Some(user) && user@ == user_of(db@, row)
            },
            None => answer.is_failure(no_such_user()),
        },
{
    return_base_res(lookup_user(db, username))
}

} // verus!
