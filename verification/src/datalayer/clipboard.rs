//! Clipboard entries.

use std::time::{Duration, SystemTime};
use vstd::prelude::*;
use vstd::string::StringExecFns;

verus! {

/// What kind of payload a clipboard entry carries.
#[derive(Debug, Clone, Copy, PartialEq, Eq, Structural)]
pub enum ClipboardDataType {
    Text,
    Image,
    /// No payload; written `None` on the wire.
    Nothing,
}

/// `std::time::SystemTime`: a reading of the system clock, carried as it
/// is; nothing of its inside is known here.
#[verifier::external_type_specification]
#[verifier::external_body]
pub struct ExSystemTime(SystemTime);

/// `SystemTime::now` of std: the time of the system clock. Nothing is
/// claimed of it.
#[verifier::external_body]
fn clock_now() -> (now: SystemTime)
{
    SystemTime::now()
}

/// `SystemTime::duration_since` of std, taken from the Unix epoch: the
/// time that has passed since then, or nothing for a time before it.
#[verifier::external_body]
fn since_epoch(time: &SystemTime) -> (passed: Option<Duration>)
{
    match time.duration_since(std::time::UNIX_EPOCH) {
        Ok(passed) => Some(passed),
        Err(_) => None,
    }
}

/// `Duration::as_millis` of std: the whole milliseconds of a duration.
/// Nothing is claimed of the number.
#[verifier::external_body]
fn whole_millis(passed: &Duration) -> (millis: u128)
{
    passed.as_millis()
}

/// The mathematical value of a clipboard entry.
pub struct ClipboardView {
    pub data: Seq<char>,
    pub clipboard_type: ClipboardDataType,
    pub date: nat,
}

/// One clipboard entry: a payload, its kind, and the time of its creation
/// in milliseconds since the Unix epoch.
#[derive(Debug)]
pub struct Clipboard {
    pub data: String,
    pub clipboard_type: ClipboardDataType,
    pub date: u128,
}

impl View for Clipboard {
    type V = ClipboardView;

    open spec fn view(&self) -> ClipboardView {
        ClipboardView {
            data: self.data@,
            clipboard_type: self.clipboard_type,
            date: self.date as nat,
        }
    }
}

/// The entry that stands for "nothing to deliver".
pub open spec fn empty_entry() -> ClipboardView {
    ClipboardView { data: Seq::empty(), clipboard_type: ClipboardDataType::Nothing, date: 0 }
}

impl ClipboardDataType {
    /// The name of the kind on the wire.
    pub open spec fn tag(self) -> Seq<char> {
        match self {
            ClipboardDataType::Text => "Text"@,
            ClipboardDataType::Image => "Image"@,
            ClipboardDataType::Nothing => "None"@,
        }
    }

    /// The name of the kind on the wire, as text.
    pub fn to_string(self) -> (text: String)
        ensures
            text@ == self.tag(),
    {
        match self {
            ClipboardDataType::Text => String::from_str("Text"),
            ClipboardDataType::Image => String::from_str("Image"),
            ClipboardDataType::Nothing => String::from_str("None"),
        }
    }
}

impl ClipboardView {
    /// What a log line shows of the entry: the payload of a text, the
    /// name of any other kind.
    pub open spec fn summary(self) -> Seq<char> {
        match self.clipboard_type {
            ClipboardDataType::Text => self.data,
            ClipboardDataType::Image => "Image"@,
            ClipboardDataType::Nothing => "None"@,
        }
    }

    /// The log line of the entry, `stamp` being its date as text.
    pub open spec fn line(self, stamp: Seq<char>) -> Seq<char> {
        "Clipboard["@ + stamp + "]: "@ + self.summary()
    }
}

impl Clipboard {
    /// An entry with the payload `data` of the kind `clipboard_type`,
    /// dated by the system clock in milliseconds since the Unix epoch; a
    /// clock that is set before the epoch gives the date 0.
    pub fn new(data: String, clipboard_type: ClipboardDataType) -> (entry: Clipboard)
        ensures
            entry@.data == data@,
            entry@.clipboard_type == clipboard_type,
    {
        let now = clock_now();
        let date = match since_epoch(&now) {
            Some(passed) => whole_millis(&passed),
            None => 0,
        };
        Clipboard { data, clipboard_type, date }
    }

    /// The log line of the entry, `stamp` being its date as text in the
    /// time zone of the reader.
    pub fn to_line(&self, stamp: &str) -> (text: String)
        ensures
            text@ == self@.line(stamp@),
    {
        let mut text = String::from_str("Clipboard[");
        text.append(stamp);
        text.append("]: ");
        match self.clipboard_type {
            ClipboardDataType::Text => text.append(self.data.as_str()),
            ClipboardDataType::Image => text.append("Image"),
            ClipboardDataType::Nothing => text.append("None"),
        }
        text
    }

    /// The empty entry: no payload, kind `Nothing`, date 0.
    pub fn empty() -> (entry: Clipboard)
        ensures
            entry@ == empty_entry(),
    {
        Clipboard { data: String::new(), clipboard_type: ClipboardDataType::Nothing, date: 0 }
    }
}

impl Clone for Clipboard {
    fn clone(&self) -> (copy: Clipboard)
        ensures
            copy@ == self@,
    {
        Clipboard {
            data: self.data.clone(),
            clipboard_type: self.clipboard_type,
            date: self.date,
        }
    }
}

} // verus!
