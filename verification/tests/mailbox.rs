use connect_any_server::datalayer::clipboard::{Clipboard, ClipboardDataType};
use connect_any_server::datalayer::database::DatabaseDevice;
use connect_any_server::datalayer::{DeviceType, User};
use connect_any_server::init;
use connect_any_server::state::{AppState, ClipboardData, CHANNEL_CAPACITY, HISTORY_CAPACITY};

fn device(id: u64, name: &str) -> DatabaseDevice {
    DatabaseDevice {
        id,
        name: name.to_string(),
        notification: String::new(),
        device_type: DeviceType::Linux,
    }
}

fn text(data: &str, date: u128) -> Clipboard {
    Clipboard { data: data.to_string(), clipboard_type: ClipboardDataType::Text, date }
}

fn numbered(n: usize) -> Clipboard {
    text(&format!("entry {}", n), n as u128)
}

#[test]
fn capacities_are_as_documented() {
    assert_eq!(HISTORY_CAPACITY, 100);
    assert_eq!(CHANNEL_CAPACITY, 10);
}

#[test]
fn new_mailbox_is_empty() {
    let mailbox = ClipboardData::new();
    assert!(mailbox.data.is_empty());
    assert!(mailbox.devices.is_empty());
    assert!(mailbox.subscribers.is_empty());
    let other = ClipboardData::default();
    assert!(other.data.is_empty());
}

#[test]
fn push_then_pull_once() {
    let a = device(1, "a");
    let b = device(2, "b");
    let devices = vec![a.clone(), b.clone()];
    let mut mailbox = ClipboardData::new();
    assert_eq!(mailbox.push(text("hello", 5), &devices, &a), None);
    assert_eq!(mailbox.data.len(), 1);
    assert_eq!(mailbox.devices.len(), 1);
    assert_eq!(mailbox.devices[0].id, 2);
    assert!(mailbox.pull_latest_for(&a).is_none());
    let got = mailbox.pull_latest_for(&b).unwrap();
    assert_eq!(got.data, "hello");
    assert_eq!(got.clipboard_type, ClipboardDataType::Text);
    assert_eq!(got.date, 5);
    assert!(mailbox.pull_latest_for(&b).is_none());
    assert_eq!(mailbox.data.len(), 1);
}

#[test]
fn pull_on_empty_mailbox_returns_nothing() {
    let a = device(1, "a");
    let mut mailbox = ClipboardData::new();
    mailbox.devices.push(a.clone());
    assert!(mailbox.pull_latest_for(&a).is_none());
    assert_eq!(mailbox.devices.len(), 1);
}

#[test]
fn pull_returns_only_the_latest_entry() {
    let a = device(1, "a");
    let b = device(2, "b");
    let devices = vec![a.clone(), b.clone()];
    let mut mailbox = ClipboardData::new();
    mailbox.push(text("first", 1), &devices, &a);
    mailbox.push(text("second", 2), &devices, &a);
    assert_eq!(mailbox.pull_latest_for(&b).unwrap().data, "second");
    assert!(mailbox.pull_latest_for(&b).is_none());
}

#[test]
fn origin_is_not_pending_and_others_are() {
    let a = device(1, "a");
    let b = device(2, "b");
    let c = device(3, "c");
    let devices = vec![a.clone(), b.clone(), c.clone()];
    let mut mailbox = ClipboardData::new();
    mailbox.push(text("x", 1), &devices, &b);
    let ids: Vec<u64> = mailbox.devices.iter().map(|d| d.id).collect();
    assert_eq!(ids, vec![1, 3]);
    mailbox.push(text("y", 2), &devices, &c);
    let ids: Vec<u64> = mailbox.devices.iter().map(|d| d.id).collect();
    assert_eq!(ids, vec![1, 2]);
}

#[test]
fn pull_by_one_device_leaves_the_others_pending() {
    let a = device(1, "a");
    let b = device(2, "b");
    let c = device(3, "c");
    let devices = vec![a.clone(), b.clone(), c.clone()];
    let mut mailbox = ClipboardData::new();
    mailbox.push(text("x", 1), &devices, &a);
    assert!(mailbox.pull_latest_for(&b).is_some());
    let ids: Vec<u64> = mailbox.devices.iter().map(|d| d.id).collect();
    assert_eq!(ids, vec![3]);
    assert_eq!(mailbox.pull_latest_for(&c).unwrap().data, "x");
    assert!(mailbox.devices.is_empty());
}

#[test]
fn devices_differ_by_any_field() {
    let a = device(1, "a");
    let mut same_id = device(1, "a");
    same_id.notification = "token".to_string();
    assert!(a != same_id);
    assert!(a == device(1, "a"));
    let devices = vec![a.clone(), same_id.clone()];
    let mut mailbox = ClipboardData::new();
    mailbox.push(text("x", 1), &devices, &a);
    assert_eq!(mailbox.devices.len(), 1);
    assert_eq!(mailbox.devices[0].notification, "token");
}

#[test]
fn history_is_bounded_and_keeps_the_newest() {
    let a = device(1, "a");
    let devices = vec![a.clone()];
    let mut mailbox = ClipboardData::new();
    for n in 0..100 {
        mailbox.push(numbered(n), &devices, &a);
        assert_eq!(mailbox.data.len(), n + 1);
    }
    assert_eq!(mailbox.data[0].data, "entry 0");
    mailbox.push(numbered(100), &devices, &a);
    assert_eq!(mailbox.data.len(), 100);
    assert_eq!(mailbox.data[0].data, "entry 1");
    assert_eq!(mailbox.data[99].data, "entry 100");
    for n in 101..250 {
        mailbox.push(numbered(n), &devices, &a);
        assert_eq!(mailbox.data.len(), 100);
    }
    for (i, entry) in mailbox.data.iter().enumerate() {
        assert_eq!(entry.data, format!("entry {}", 150 + i));
        assert_eq!(entry.date, (150 + i) as u128);
    }
}

#[test]
fn two_pushes_keep_their_order() {
    let a = device(1, "a");
    let b = device(2, "b");
    let devices = vec![a.clone(), b.clone()];
    let mut mailbox = ClipboardData::new();
    mailbox.push(text("from a", 1), &devices, &a);
    mailbox.push(text("from b", 2), &devices, &b);
    assert_eq!(mailbox.data.len(), 2);
    assert_eq!(mailbox.data[0].data, "from a");
    assert_eq!(mailbox.data[1].data, "from b");
    assert_eq!(mailbox.devices.len(), 1);
    assert_eq!(mailbox.devices[0].id, 1);
}

#[test]
fn live_subscriber_receives_push() {
    let a = device(1, "a");
    let b = device(2, "b");
    let devices = vec![a.clone(), b.clone()];
    let mut mailbox = ClipboardData::new();
    let mut rx = mailbox.subscribe(7);
    assert_eq!(mailbox.subscribers, vec![7]);
    assert_eq!(mailbox.push(text("hello", 5), &devices, &a), Some(1));
    let got = rx.try_recv().unwrap();
    assert_eq!(got.data, "hello");
    assert_eq!(got.date, 5);
    assert!(rx.try_recv().is_err());
}

#[test]
fn subscriber_sees_only_later_entries_in_order() {
    let a = device(1, "a");
    let devices = vec![a.clone()];
    let mut mailbox = ClipboardData::new();
    mailbox.push(text("before", 1), &devices, &a);
    let mut rx = mailbox.subscribe(1);
    let mut second = mailbox.subscribe(2);
    assert_eq!(mailbox.push(text("one", 2), &devices, &a), Some(2));
    assert_eq!(mailbox.push(text("two", 3), &devices, &a), Some(2));
    assert_eq!(rx.try_recv().unwrap().data, "one");
    assert_eq!(rx.try_recv().unwrap().data, "two");
    assert!(rx.try_recv().is_err());
    assert_eq!(second.try_recv().unwrap().data, "one");
    assert_eq!(mailbox.data.len(), 3);
}

#[test]
fn subscribing_twice_lists_the_session_once() {
    let mut mailbox = ClipboardData::new();
    let _rx = mailbox.subscribe(4);
    let _again = mailbox.subscribe(4);
    assert_eq!(mailbox.subscribers, vec![4]);
    assert!(mailbox.has_subscriber(4));
    assert!(!mailbox.has_subscriber(5));
}

#[test]
fn unsubscribed_session_is_gone_and_push_goes_on() {
    let a = device(1, "a");
    let devices = vec![a.clone()];
    let mut mailbox = ClipboardData::new();
    let rx = mailbox.subscribe(1);
    let mut other = mailbox.subscribe(2);
    drop(rx);
    mailbox.unsubscribe(1);
    assert_eq!(mailbox.subscribers, vec![2]);
    assert_eq!(mailbox.push(text("x", 1), &devices, &a), Some(1));
    assert_eq!(other.try_recv().unwrap().data, "x");
    drop(other);
    mailbox.unsubscribe(2);
    assert!(mailbox.subscribers.is_empty());
    assert_eq!(mailbox.push(text("y", 2), &devices, &a), None);
    assert_eq!(mailbox.data.len(), 2);
}

#[test]
fn slow_subscriber_does_not_block_pushes() {
    let a = device(1, "a");
    let devices = vec![a.clone()];
    let mut mailbox = ClipboardData::new();
    let mut rx = mailbox.subscribe(1);
    for n in 0..40 {
        assert_eq!(mailbox.push(numbered(n), &devices, &a), Some(1));
    }
    assert!(rx.try_recv().is_err());
    assert_eq!(rx.try_recv().unwrap().data, "entry 24");
    assert_eq!(mailbox.data.len(), 40);
}

#[test]
fn live_delivery_takes_the_device_off_pending() {
    let a = device(1, "a");
    let b = device(2, "b");
    let c = device(3, "c");
    let devices = vec![a.clone(), b.clone(), c.clone()];
    let mut mailbox = ClipboardData::new();
    mailbox.push(text("x", 1), &devices, &a);
    mailbox.mark_delivered(&b);
    assert!(mailbox.pull_latest_for(&b).is_none());
    assert_eq!(mailbox.pull_latest_for(&c).unwrap().data, "x");
}

#[test]
fn store_keeps_mailboxes_apart() {
    let a = device(1, "a");
    let b = device(2, "b");
    let c = device(3, "c");
    let first = User { id: 10, name: "u".to_string(), devices: vec![a.clone(), b.clone()] };
    let second = User { id: 11, name: "v".to_string(), devices: vec![c.clone()] };
    let mut state = init();
    assert!(state.clipboard_datas.is_empty());
    assert_eq!(state.client_n, 0);
    state.push(&first, text("x", 1), &a);
    assert_eq!(state.clipboard_datas.len(), 1);
    assert!(state.pull_latest_for(11, &c).is_none());
    assert_eq!(state.clipboard_datas.len(), 2);
    assert!(state.clipboard_datas[&11].data.is_empty());
    state.push(&second, text("y", 2), &c);
    assert_eq!(state.clipboard_datas[&10].data.len(), 1);
    assert_eq!(state.clipboard_datas[&10].data[0].data, "x");
    assert_eq!(state.pull_latest_for(10, &b).unwrap().data, "x");
    assert!(state.pull_latest_for(10, &b).is_none());
    assert!(state.pull_latest_for(10, &a).is_none());
}

#[test]
fn store_get_or_create_keeps_an_existing_mailbox() {
    let a = device(1, "a");
    let b = device(2, "b");
    let user = User { id: 10, name: "u".to_string(), devices: vec![a.clone(), b.clone()] };
    let mut state = AppState::default();
    state.get_or_create(10);
    assert!(state.clipboard_datas[&10].data.is_empty());
    state.push(&user, text("x", 1), &a);
    state.get_or_create(10);
    assert_eq!(state.clipboard_datas.len(), 1);
    assert_eq!(state.clipboard_datas[&10].data.len(), 1);
    assert_eq!(state.clipboard_datas[&10].devices.len(), 1);
}

#[test]
fn store_subscribe_and_unsubscribe() {
    let a = device(1, "a");
    let user = User { id: 10, name: "u".to_string(), devices: vec![a.clone()] };
    let mut state = AppState::new();
    let mut rx = state.subscribe(10, 1);
    assert_eq!(state.clipboard_datas[&10].subscribers, vec![1]);
    assert_eq!(state.push(&user, text("x", 1), &a), Some(1));
    assert_eq!(rx.try_recv().unwrap().data, "x");
    state.mark_delivered(10, &a);
    drop(rx);
    state.unsubscribe(10, 1);
    assert!(state.clipboard_datas[&10].subscribers.is_empty());
    assert_eq!(state.push(&user, text("y", 2), &a), None);
}

#[test]
fn connection_count_stops_at_its_bounds() {
    let mut state = AppState::new();
    state.disconnected();
    assert_eq!(state.client_n, 0);
    assert!(state.connected());
    assert_eq!(state.client_n, 1);
    state.disconnected();
    assert_eq!(state.client_n, 0);
    for _ in 0..255 {
        assert!(state.connected());
    }
    assert_eq!(state.client_n, 255);
    assert!(!state.connected());
    assert_eq!(state.client_n, 255);
}
