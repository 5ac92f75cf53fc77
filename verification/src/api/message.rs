//! Pushing a clipboard entry and pulling the latest one.

use super::{bool_failure, bool_success, return_base_res, return_bool_res, BaseRes, BoolRes};
use crate::datalayer::clipboard::{empty_entry, Clipboard};
use crate::datalayer::database::Registry;
use crate::datalayer::{claimed, owner, user_not_found, Device, User};
use crate::state::AppState;
use crate::utils::AiError;
use vstd::prelude::*;

verus! {

/// The device that a request claims to come from.
#[derive(Debug)]
pub struct InputDevice {
    pub name: String,
    pub device_type: String,
}

impl InputDevice {
    /// Resolves the claimed device: see
    /// [`crate::datalayer::InputDevice::parse`].
    pub fn parse(self, db: &mut Registry) -> (r: Result<Device, AiError>)
        ensures
            match claimed(old(db)@, self.name@, self.device_type@) {
                Ok((d, after)) => r matches Ok(device) && device@ == d && final(db)@ == after,
                Err(e) => r matches Err(x) && x@ == e && final(db)@ == old(db)@,
            },
            old(db)@.wf() ==> final(db)@.wf(),
    {
        let claim = crate::datalayer::InputDevice {
            name: self.name,
            device_type: self.device_type,
        };
        claim.parse(db)
    }
}

/// A request to push `message` from `device`.
#[derive(Debug)]
pub struct InputAddMessage {
    pub device: InputDevice,
    pub message: Clipboard,
}

/// A request for the latest entry that `device` has not seen.
#[derive(Debug)]
pub struct InputMessageUpdateBase {
    pub device: InputDevice,
}

fn push_message(state: &mut AppState, db: &mut Registry, payload: InputAddMessage) -> (r: Result<
    (),
    AiError,
>)
    ensures
        match claimed(old(db)@, payload.device.name@, payload.device.device_type@) {
            Err(e) => {
                &&& r matches Err(x) && x@ == e
                &&& final(db)@ == old(db)@
                &&& final(state)@ == old(state)@
            },
            Ok((device, after)) => {
                &&& final(db)@ == after
                &&& match owner(after, device.id) {
                    None => {
                        &&& r matches Err(x) && x@ == user_not_found()
                        &&& final(state)@ == old(state)@
                    },
                    Some(user) => {
                        &&& r is Ok
                        &&& final(state)@ == old(state)@.with_mailbox(
                            user.id,
                            old(state)@.mailbox(user.id).pushed(
                                payload.message@,
                                user.devices,
                                device,
                            ),
                        )
                    },
                }
            },
        },
        old(state)@.wf() ==> final(state)@.wf(),
        old(db)@.wf() ==> final(db)@.wf(),
{
    let now_device = match payload.device.parse(db) {
        Ok(device) => device,
        Err(e) => { return Err(e); },
    };
    let user = match User::find_user_from_device(db, &now_device) {
        Ok(user) => user,
        Err(e) => { return Err(e); },
    };
    state.push(&user, payload.message, &now_device);
    Ok(())
}

/// Takes in a pushed clipboard entry. The claimed device is resolved,
/// which registers it if it is new; its owner is looked up; the entry goes
/// into the owner's mailbox, and the owner's other devices become the
/// pending ones. An invalid device type and a device without an owner are
/// answered with a failure, and no mailbox changes.
pub fn add_message(state: &mut AppState, db: &mut Registry, payload: InputAddMessage) -> (answer:
    BoolRes)
    ensures
        match claimed(old(db)@, payload.device.name@, payload.device.device_type@) {
            Err(e) => {
                &&& answer@ == bool_failure(e)
                &&& final(db)@ == old(db)@
                &&& final(state)@ == old(state)@
            },
            Ok((device, after)) => {
                &&& final(db)@ == after
                &&& match owner(after, device.id) {
                    None => {
                        &&& answer@ == bool_failure(user_not_found())
                        &&& final(state)@ == old(state)@
                    },
                    Some(user) => {
                        &&& answer@ == bool_success()
                        &&& final(state)@ == old(state)@.with_mailbox(
                            user.id,
                            old(state)@.mailbox(user.id).pushed(
                                payload.message@,
                                user.devices,
                                device,
                            ),
                        )
                    },
                }
            },
        },
        old(state)@.wf() ==> final(state)@.wf(),
        old(db)@.wf() ==> final(db)@.wf(),
{
    return_bool_res(push_message(state, db, payload))
}

fn pull_message(state: &mut AppState, db: &mut Registry, payload: InputMessageUpdateBase) -> (r:
    Result<Clipboard, AiError>)
    ensures
        match claimed(old(db)@, payload.device.name@, payload.device.device_type@) {
            Err(e) => {
                &&& r matches Err(x) && x@ == e
                &&& final(db)@ == old(db)@
                &&& final(state)@ == old(state)@
            },
            Ok((device, after)) => {
                &&& final(db)@ == after
                &&& match owner(after, device.id) {
                    None => {
                        &&& r matches Err(x) && x@ == user_not_found()
                        &&& final(state)@ == old(state)@
                    },
                    Some(user) => {
                        &&& r matches Ok(entry) && entry@ == latest_or_empty(
                            old(state)@.mailbox(user.id).latest_for(device),
                        )
                        &&& final(state)@ == old(state)@.with_mailbox(
                            user.id,
                            old(state)@.mailbox(user.id).pulled(device),
                        )
                    },
                }
            },
        },
        old(state)@.wf() ==> final(state)@.wf(),
        old(db)@.wf() ==> final(db)@.wf(),
{
    let now_device = match payload.device.parse(db) {
        Ok(device) => device,
        Err(e) => { return Err(e); },
    };
    let user = match User::find_user_from_device(db, &now_device) {
        Ok(user) => user,
        Err(e) => { return Err(e); },
    };
    match state.pull_latest_for(user.id, &now_device) {
        Some(entry) => Ok(entry),
        None => Ok(Clipboard::empty()),
    }
}

/// The entry that answers a pull: the latest one where the device is owed
/// it, else the empty entry.
pub open spec fn latest_or_empty(latest: Option<crate::datalayer::clipboard::ClipboardView>)
    -> crate::datalayer::clipboard::ClipboardView {
    match latest {
        Some(entry) => entry,
        None => empty_entry(),
    }
}

/// Answers a pull. The claimed device is resolved, which registers it if
/// it is new, and its owner is looked up. Where the owner's mailbox has an
/// entry and the device is pending, the answer is the latest entry and the
/// device is pending no longer; else the answer is the empty entry. An
/// invalid device type and a device without an owner are answered with a
/// failure, and no mailbox changes.
pub fn message_update_base(
    state: &mut AppState,
    db: &mut Registry,
    payload: InputMessageUpdateBase,
) -> (answer: BaseRes<Clipboard>)
    ensures
        match claimed(old(db)@, payload.device.name@, payload.device.device_type@) {
            Err(e) => {
                &&& answer.is_failure(e)
                &&& final(db)@ == old(db)@
                &&& final(state)@ == old(state)@
            },
            Ok((device, after)) => {
                &&& final(db)@ == after
                &&& match owner(after, device.id) {
                    None => {
                        &&& answer.is_failure(user_not_found())
                        &&& final(state)@ == old(state)@
                    },
                    Some(user) => {
                        &&& answer.code == super::CODE_SUCCESS
                        &&& answer.msg@ == "success"@
                        &&& answer.data matches Some(entry) && entry@ == latest_or_empty(
                            old(state)@.mailbox(user.id).latest_for(device),
                        )
                        &&& final(state)@ == old(state)@.with_mailbox(
                            user.id,
                            old(state)@.mailbox(user.id).pulled(device),
                        )
                    },
                }
            },
        },
        old(state)@.wf() ==> final(state)@.wf(),
        old(db)@.wf() ==> final(db)@.wf(),
{
    return_base_res(pull_message(state, db, payload))
}

} // verus!
