use connect_any_server::api::message::{
    add_message, message_update_base, InputAddMessage, InputDevice, InputMessageUpdateBase,
};
use connect_any_server::api::user::{
    add_user, get_user_device, InputAddDevice, InputAddUser, InputGetUser,
};
use connect_any_server::api::{return_base_res, return_bool_res, CODE_FAILURE, CODE_SUCCESS};
use connect_any_server::datalayer::clipboard::{Clipboard, ClipboardDataType};
use connect_any_server::datalayer::database::Registry;
use connect_any_server::datalayer::DeviceType;
use connect_any_server::state::AppState;
use connect_any_server::utils::{ba_error, AiError};
use connect_any_server::websocket::{open_session, WsInitMessage};

fn claim(name: &str, device_type: &str) -> InputDevice {
    InputDevice { name: name.to_string(), device_type: device_type.to_string() }
}

fn text(data: &str, date: u128) -> Clipboard {
    Clipboard { data: data.to_string(), clipboard_type: ClipboardDataType::Text, date }
}

fn register(db: &mut Registry, user: &str, device: &str, device_type: &str) {
    let answer = add_user(
        db,
        InputAddUser {
            name: user.to_string(),
            device: InputAddDevice {
                name: device.to_string(),
                device_type: device_type.to_string(),
                notification: String::new(),
            },
        },
    );
    assert_eq!(answer.code, 200);
}

#[test]
fn envelope_codes() {
    assert_eq!(CODE_SUCCESS, 200);
    assert_eq!(CODE_FAILURE, 401);
}

#[test]
fn envelope_of_a_value() {
    let ok = return_base_res::<u64>(Ok(7));
    assert_eq!(ok.code, 200);
    assert_eq!(ok.msg, "success");
    assert_eq!(ok.data, Some(7));
    let failed = return_base_res::<u64>(Err(ba_error("not find user")));
    assert_eq!(failed.code, 401);
    assert_eq!(failed.msg, "not find user");
    assert_eq!(failed.data, None);
}

#[test]
fn envelope_of_a_yes_or_no() {
    let ok = return_bool_res(Ok(()));
    assert_eq!((ok.code, ok.msg.as_str(), ok.data), (200, "success", true));
    let failed = return_bool_res(Err(AiError::new("boom")));
    assert_eq!((failed.code, failed.msg.as_str(), failed.data), (401, "boom", false));
}

#[test]
fn add_user_registers_user_and_device() {
    let mut db = Registry::new();
    register(&mut db, "ann", "phone", "Ios");
    assert_eq!(db.users.len(), 1);
    assert_eq!(db.devices.len(), 1);
    assert_eq!(db.devices[0].device_type, DeviceType::Ios);
    assert_eq!(db.user_device.len(), 1);
    register(&mut db, "ann", "desk", "Linux");
    assert_eq!(db.users.len(), 1);
    assert_eq!(db.devices.len(), 2);
    register(&mut db, "ann", "desk", "Linux");
    assert_eq!(db.devices.len(), 2);
    assert_eq!(db.user_device.len(), 2);
}

#[test]
fn add_user_with_an_invalid_device_type_keeps_the_user() {
    let mut db = Registry::new();
    let answer = add_user(
        &mut db,
        InputAddUser {
            name: "ann".to_string(),
            device: InputAddDevice {
                name: "phone".to_string(),
                device_type: "Phone".to_string(),
                notification: String::new(),
            },
        },
    );
    assert_eq!(answer.code, 401);
    assert_eq!(answer.msg, "Matching variant not found");
    assert!(!answer.data);
    assert_eq!(db.users.len(), 1);
    assert!(db.devices.is_empty());
}

#[test]
fn get_user_device_lists_the_devices() {
    let mut db = Registry::new();
    register(&mut db, "ann", "phone", "Ios");
    register(&mut db, "ann", "desk", "Linux");
    let answer = get_user_device(&db, InputGetUser { name: "ann".to_string() });
    assert_eq!(answer.code, 200);
    assert_eq!(answer.msg, "success");
    let user = answer.data.unwrap();
    assert_eq!(user.id, 1);
    assert_eq!(user.name, "ann");
    let names: Vec<&str> = user.devices.iter().map(|d| d.name.as_str()).collect();
    assert_eq!(names, vec!["phone", "desk"]);
    let missing = get_user_device(&db, InputGetUser { name: "bob".to_string() });
    assert_eq!(missing.code, 401);
    assert_eq!(missing.msg, "not find user");
    assert!(missing.data.is_none());
}

#[test]
fn push_with_an_invalid_device_type_fails() {
    let mut db = Registry::new();
    let mut state = AppState::new();
    let answer = add_message(
        &mut state,
        &mut db,
        InputAddMessage { device: claim("phone", "iOS"), message: text("x", 1) },
    );
    assert_eq!(answer.code, 401);
    assert_eq!(answer.msg, "Matching variant not found");
    assert!(!answer.data);
    assert!(db.devices.is_empty());
    assert!(state.clipboard_datas.is_empty());
}

#[test]
fn push_from_an_unregistered_device_creates_it_and_is_not_found() {
    let mut db = Registry::new();
    let mut state = AppState::new();
    let answer = add_message(
        &mut state,
        &mut db,
        InputAddMessage { device: claim("stray", "Android"), message: text("x", 1) },
    );
    assert_eq!(answer.code, 401);
    assert_eq!(answer.msg, "device user not found");
    assert!(!answer.data);
    assert_eq!(db.devices.len(), 1);
    assert_eq!(db.devices[0].name, "stray");
    assert_eq!(db.devices[0].device_type, DeviceType::Android);
    assert!(db.user_device.is_empty());
    assert!(state.clipboard_datas.is_empty());
    let pulled = message_update_base(
        &mut state,
        &mut db,
        InputMessageUpdateBase { device: claim("stray", "Android") },
    );
    assert_eq!(pulled.code, 401);
    assert_eq!(pulled.msg, "device user not found");
    assert!(pulled.data.is_none());
    assert_eq!(db.devices.len(), 1);
    let again = add_message(
        &mut state,
        &mut db,
        InputAddMessage { device: claim("stray", "Android"), message: text("x", 1) },
    );
    assert_eq!(again.msg, "device user not found");
    assert_eq!(db.devices.len(), 1);
}

#[test]
fn pull_without_a_push_returns_the_empty_entry() {
    let mut db = Registry::new();
    let mut state = AppState::new();
    register(&mut db, "ann", "a", "Linux");
    let answer =
        message_update_base(&mut state, &mut db, InputMessageUpdateBase { device: claim("a", "Linux") });
    assert_eq!(answer.code, 200);
    let entry = answer.data.unwrap();
    assert_eq!(entry.data, "");
    assert_eq!(entry.clipboard_type, ClipboardDataType::Nothing);
    assert_eq!(entry.date, 0);
    assert_eq!(state.clipboard_datas.len(), 1);
}

#[test]
fn push_reaches_live_device_and_is_pulled_once() {
    let mut db = Registry::new();
    let mut state = AppState::new();
    register(&mut db, "ann", "a", "Linux");
    register(&mut db, "ann", "b", "Mac");
    register(&mut db, "ann", "c", "Ios");
    let init = WsInitMessage {
        device: connect_any_server::datalayer::InputDevice {
            name: "b".to_string(),
            device_type: "Mac".to_string(),
        },
        message_type: "init".to_string(),
    };
    let (session, mut rx) = open_session(&mut state, &mut db, 1, Some(init)).unwrap();

    let pushed = add_message(
        &mut state,
        &mut db,
        InputAddMessage { device: claim("a", "Linux"), message: text("hello", 1700000000000) },
    );
    assert_eq!((pushed.code, pushed.msg.as_str(), pushed.data), (200, "success", true));

    let live = rx.try_recv().unwrap();
    assert_eq!(live.data, "hello");
    assert_eq!(live.clipboard_type, ClipboardDataType::Text);
    assert_eq!(live.date, 1700000000000);
    session.relayed(&mut state);

    let first =
        message_update_base(&mut state, &mut db, InputMessageUpdateBase { device: claim("c", "Ios") });
    assert_eq!(first.code, 200);
    assert_eq!(first.msg, "success");
    let entry = first.data.unwrap();
    assert_eq!(entry.data, "hello");
    assert_eq!(entry.clipboard_type, ClipboardDataType::Text);
    assert_eq!(entry.date, 1700000000000);

    let second =
        message_update_base(&mut state, &mut db, InputMessageUpdateBase { device: claim("c", "Ios") });
    assert_eq!(second.code, 200);
    let entry = second.data.unwrap();
    assert_eq!(entry.data, "");
    assert_eq!(entry.clipboard_type, ClipboardDataType::Nothing);
    assert_eq!(entry.date, 0);

    let by_live =
        message_update_base(&mut state, &mut db, InputMessageUpdateBase { device: claim("b", "Mac") });
    assert_eq!(by_live.data.unwrap().data, "");
    let by_origin =
        message_update_base(&mut state, &mut db, InputMessageUpdateBase { device: claim("a", "Linux") });
    assert_eq!(by_origin.data.unwrap().data, "");
}

#[test]
fn pushes_of_different_users_do_not_mix() {
    let mut db = Registry::new();
    let mut state = AppState::new();
    register(&mut db, "ann", "a1", "Linux");
    register(&mut db, "ann", "a2", "Mac");
    register(&mut db, "bob", "b1", "Linux");
    register(&mut db, "bob", "b2", "Mac");
    add_message(
        &mut state,
        &mut db,
        InputAddMessage { device: claim("a1", "Linux"), message: text("for ann", 1) },
    );
    let other =
        message_update_base(&mut state, &mut db, InputMessageUpdateBase { device: claim("b2", "Mac") });
    assert_eq!(other.data.unwrap().data, "");
    let own =
        message_update_base(&mut state, &mut db, InputMessageUpdateBase { device: claim("a2", "Mac") });
    assert_eq!(own.data.unwrap().data, "for ann");
}
