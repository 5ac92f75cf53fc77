use connect_any_server::datalayer::clipboard::{Clipboard, ClipboardDataType};
use connect_any_server::datalayer::DeviceType;
use connect_any_server::utils::{ba_error, log_error, same_text, AiError, ErrorKind};

#[test]
fn empty_entry_is_empty() {
    let entry = Clipboard::empty();
    assert_eq!(entry.data, "");
    assert_eq!(entry.clipboard_type, ClipboardDataType::Nothing);
    assert_eq!(entry.date, 0);
    assert_eq!(entry.clipboard_type.to_string(), "None");
}

#[test]
fn new_entry_is_dated_by_the_clock() {
    let before = std::time::SystemTime::now()
        .duration_since(std::time::UNIX_EPOCH)
        .unwrap()
        .as_millis();
    let entry = Clipboard::new("hello".to_string(), ClipboardDataType::Text);
    let after = std::time::SystemTime::now()
        .duration_since(std::time::UNIX_EPOCH)
        .unwrap()
        .as_millis();
    assert_eq!(entry.data, "hello");
    assert_eq!(entry.clipboard_type, ClipboardDataType::Text);
    assert!(before <= entry.date && entry.date <= after);
}

#[test]
fn clone_keeps_every_field() {
    let entry = Clipboard { data: "x".to_string(), clipboard_type: ClipboardDataType::Image, date: 9 };
    let copy = entry.clone();
    assert_eq!(copy.data, "x");
    assert_eq!(copy.clipboard_type, ClipboardDataType::Image);
    assert_eq!(copy.date, 9);
}

#[test]
fn log_line_shows_text_or_kind() {
    let entry = Clipboard { data: "hi".to_string(), clipboard_type: ClipboardDataType::Text, date: 0 };
    assert_eq!(entry.to_line("2024-01-02 03:04:05"), "Clipboard[2024-01-02 03:04:05]: hi");
    let image = Clipboard { data: "raw".to_string(), clipboard_type: ClipboardDataType::Image, date: 0 };
    assert_eq!(image.to_line("t"), "Clipboard[t]: Image");
    assert_eq!(Clipboard::empty().to_line(""), "Clipboard[]: None");
}

#[test]
fn kind_names() {
    assert_eq!(ClipboardDataType::Text.to_string(), "Text");
    assert_eq!(ClipboardDataType::Image.to_string(), "Image");
    assert_eq!(ClipboardDataType::Nothing.to_string(), "None");
}

#[test]
fn device_type_names_round_trip() {
    let all = [
        (DeviceType::Ios, "Ios"),
        (DeviceType::Android, "Android"),
        (DeviceType::Windows, "Windows"),
        (DeviceType::Mac, "Mac"),
        (DeviceType::Linux, "Linux"),
    ];
    for (device_type, name) in all {
        assert_eq!(device_type.to_string(), name);
        assert_eq!(DeviceType::parse(name).unwrap(), device_type);
    }
}

#[test]
fn unknown_device_type_is_invalid_input() {
    for tag in ["", "ios", "IOS", "Linux ", "Phone", "Mac\n"] {
        let err = DeviceType::parse(tag).unwrap_err();
        assert_eq!(err.kind, ErrorKind::InvalidInput);
        assert_eq!(err.to_string(), "Matching variant not found");
    }
}

#[test]
fn errors_carry_their_text() {
    let err = AiError::new("boom");
    assert_eq!(err.err, "boom");
    assert_eq!(err.kind, ErrorKind::UpstreamFailure);
    assert_eq!(err.to_string(), "boom");
    let other = ba_error("not find user");
    assert_eq!(other.to_string(), "not find user");
    let kinded = AiError::with_kind(ErrorKind::NotFound, "gone");
    assert_eq!(kinded.kind, ErrorKind::NotFound);
    let copy = kinded.clone();
    assert_eq!(copy.err, "gone");
    assert_eq!(copy.kind, ErrorKind::NotFound);
}

#[test]
fn log_error_gives_a_line_for_a_failure_only() {
    assert_eq!(log_error("send", Ok(())), None);
    assert_eq!(log_error("send", Err(ba_error("refused"))), Some("send error: refused".to_string()));
    assert_eq!(log_error("", Err(ba_error(""))), Some(" error: ".to_string()));
}

#[test]
fn same_text_compares_characters() {
    assert!(same_text("init", "init"));
    assert!(!same_text("init", "Init"));
    assert!(!same_text("init", "init "));
    assert!(same_text("", ""));
}
