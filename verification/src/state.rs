//! The mailbox of a user and the store of all mailboxes.
//!
//! A mailbox keeps a bounded history of clipboard entries, the devices
//! that have not yet seen the latest entry, the roster of live sessions,
//! and the sending half of the channel that carries new entries to them.

use crate::datalayer::clipboard::{Clipboard, ClipboardView};
use crate::datalayer::database::{device_views, lemma_take_push, DeviceView};
use crate::datalayer::{Device, User};
use crate::utils::ArcBroadcastSender;
use std::collections::HashMap;
use std::sync::Arc;
use tokio::sync::broadcast::{Receiver, Sender};
use vstd::prelude::*;

verus! {

/// The number of entries a mailbox keeps.
pub const HISTORY_CAPACITY: usize = 100;

/// The capacity asked of the fan-out channel of a mailbox: a session that
/// falls further behind than the channel holds starts to miss entries.
pub const CHANNEL_CAPACITY: usize = 10;

/// `tokio::sync::broadcast::Sender`: the sending half of a channel,
/// carried as it is; nothing of its inside is known here.
#[verifier::external_type_specification]
#[verifier::external_body]
#[verifier::reject_recursive_types(T)]
pub struct ExSender<T>(Sender<T>);

/// `tokio::sync::broadcast::Receiver`: one receiving end of a channel,
/// carried as it is; nothing of its inside is known here.
#[verifier::external_type_specification]
#[verifier::external_body]
#[verifier::reject_recursive_types(T)]
pub struct ExReceiver<T>(Receiver<T>);

/// `tokio::sync::broadcast::channel`: a new channel that holds `capacity`
/// entries. Nothing is claimed of the sender that comes back. The call
/// panics on a capacity of zero or above half of `usize::MAX`, which the
/// precondition leaves out. The receiver that comes with the sender is
/// dropped: sessions subscribe later.
#[verifier::external_body]
fn open_channel(capacity: usize) -> (tx: Sender<Clipboard>)
    requires
        0 < capacity <= usize::MAX / 2,
{
    let (tx, _) = tokio::sync::broadcast::channel(capacity);
    tx
}

/// `tokio::sync::broadcast::Sender::send`: hands `entry` to the receivers
/// that are subscribed now. The result is their number, or nothing when
/// there is none; a number that comes back is at least one, since the
/// call fails on zero receivers.
#[verifier::external_body]
fn publish(tx: &Sender<Clipboard>, entry: Clipboard) -> (receivers: Option<usize>)
    ensures
        receivers matches Some(n) ==> n >= 1,
{
    match tx.send(entry) {
        Ok(n) => Some(n),
        Err(_) => None,
    }
}

/// `tokio::sync::broadcast::Sender::subscribe`: a new receiver, which
/// sees the entries sent after this call. Nothing is claimed of it.
#[verifier::external_body]
fn attach(tx: &Sender<Clipboard>) -> (rx: Receiver<Clipboard>)
{
    tx.subscribe()
}

/// The mathematical value of a mailbox.
pub struct MailboxView {
    /// The entries kept, oldest first.
    pub history: Seq<ClipboardView>,
    /// The devices that have not yet seen the latest entry.
    pub pending: Seq<DeviceView>,
    /// The ids of the live sessions.
    pub subscribers: Seq<u64>,
}

/// The devices other than `device`.
pub open spec fn other_than(device: DeviceView) -> spec_fn(DeviceView) -> bool {
    |d: DeviceView| d != device
}

/// The sessions other than `session`.
pub open spec fn session_other_than(session: u64) -> spec_fn(u64) -> bool {
    |s: u64| s != session
}

/// The history after `entry` was appended: a full history first gives up
/// its oldest entry.
pub open spec fn history_after(history: Seq<ClipboardView>, entry: ClipboardView) -> Seq<
    ClipboardView,
> {
    if history.len() >= HISTORY_CAPACITY {
        history.drop_first().push(entry)
    } else {
        history.push(entry)
    }
}

/// The devices left pending by a push from `origin`: all of the user's
/// devices but `origin`.
pub open spec fn pending_after(devices: Seq<DeviceView>, origin: DeviceView) -> Seq<DeviceView> {
    devices.filter(other_than(origin))
}

impl MailboxView {
    /// The empty mailbox.
    pub open spec fn empty() -> MailboxView {
        MailboxView { history: Seq::empty(), pending: Seq::empty(), subscribers: Seq::empty() }
    }

    /// The history is within its capacity and no session is listed twice.
    pub open spec fn wf(self) -> bool {
        &&& self.history.len() <= HISTORY_CAPACITY
        &&& self.subscribers.no_duplicates()
    }

    /// The mailbox after `origin` pushed `entry`, `devices` being the
    /// devices of the user.
    pub open spec fn pushed(
        self,
        entry: ClipboardView,
        devices: Seq<DeviceView>,
        origin: DeviceView,
    ) -> MailboxView {
        MailboxView {
            history: history_after(self.history, entry),
            pending: pending_after(devices, origin),
            ..self
        }
    }

    /// What a pull by `device` returns: the latest entry, if there is one
    /// and `device` is pending.
    pub open spec fn latest_for(self, device: DeviceView) -> Option<ClipboardView> {
        if self.history.len() > 0 && self.pending.contains(device) {
            Some(self.history.last())
        } else {
            None
        }
    }

    /// The mailbox after `device` has seen the latest entry.
    pub open spec fn seen_by(self, device: DeviceView) -> MailboxView {
        MailboxView { pending: self.pending.filter(other_than(device)), ..self }
    }

    /// The mailbox after a pull by `device`.
    pub open spec fn pulled(self, device: DeviceView) -> MailboxView {
        if self.latest_for(device) is Some {
            self.seen_by(device)
        } else {
            self
        }
    }

    /// The mailbox after `session` joined the roster.
    pub open spec fn subscribed(self, session: u64) -> MailboxView {
        if self.subscribers.contains(session) {
            self
        } else {
            MailboxView { subscribers: self.subscribers.push(session), ..self }
        }
    }

    /// The mailbox after `session` left the roster.
    pub open spec fn unsubscribed(self, session: u64) -> MailboxView {
        MailboxView { subscribers: self.subscribers.filter(session_other_than(session)), ..self }
    }
}

/// The mailbox of one user.
#[derive(Debug)]
pub struct ClipboardData {
    /// The history, oldest entry first.
    pub data: Vec<Clipboard>,
    /// The devices that have not yet seen the latest entry.
    pub devices: Vec<Device>,
    /// The ids of the live sessions.
    pub subscribers: Vec<u64>,
    /// The sending half of the fan-out channel.
    pub ws_tx: ArcBroadcastSender<Clipboard>,
}

/// The values of a sequence of clipboard entries.
pub open spec fn entry_views(entries: Seq<Clipboard>) -> Seq<ClipboardView> {
    entries.map_values(|e: Clipboard| e@)
}

impl View for ClipboardData {
    type V = MailboxView;

    open spec fn view(&self) -> MailboxView {
        MailboxView {
            history: entry_views(self.data@),
            pending: device_views(self.devices@),
            subscribers: self.subscribers@,
        }
    }
}

proof fn lemma_filter_no_duplicates<A>(s: Seq<A>, p: spec_fn(A) -> bool)
    requires
        s.no_duplicates(),
    ensures
        s.filter(p).no_duplicates(),
    decreases s.len(),
{
    reveal(Seq::filter);
    if s.len() > 0 {
        let front = s.drop_last();
        lemma_filter_no_duplicates(front, p);
        if p(s.last()) {
            let kept = front.filter(p);
            assert forall|i: int| 0 <= i < kept.len() implies kept[i] != s.last() by {
                assert(kept.contains(kept[i]));
                front.lemma_filter_contains_rev(p, kept[i]);
                let j = choose|j: int| 0 <= j < front.len() && front[j] == kept[i];
                assert(s[j] == kept[i]);
            }
        }
    }
}

impl Default for ClipboardData {
    fn default() -> (mailbox: ClipboardData)
        ensures
            mailbox@ == MailboxView::empty(),
    {
        ClipboardData::new()
    }
}

impl Default for AppState {
    fn default() -> (state: AppState)
        ensures
            state@ == (StoreView { mailboxes: Map::empty(), client_n: 0 }),
    {
        AppState::new()
    }
}

/// The devices of `devices` other than `device`, in their order.
fn devices_other_than(devices: &Vec<Device>, device: &Device) -> (out: Vec<Device>)
    ensures
        device_views(out@) == device_views(devices@).filter(other_than(device@)),
{
    let mut out: Vec<Device> = Vec::new();
    let ghost rows = device_views(devices@);
    let ghost p = other_than(device@);
    let mut i: usize = 0;
    proof {
        assert(rows.take(0) =~= Seq::empty());
        assert(device_views(out@) =~= Seq::empty());
        reveal(Seq::filter);
    }
    while i < devices.len()
        invariant
            i <= devices.len(),
            rows == device_views(devices@),
            p == other_than(device@),
            device_views(out@) == rows.take(i as int).filter(p),
        decreases devices.len() - i,
    {
        let ghost before = out@;
        proof {
            lemma_take_push(rows, i as int);
            rows.take(i as int).lemma_filter_push(rows[i as int], p);
        }
        if devices[i] != *device {
            let row = devices[i].clone();
            out.push(row);
            proof {
                assert(device_views(out@) =~= device_views(before).push(row@));
            }
        }
        i += 1;
    }
    proof {
        assert(rows.take(i as int) =~= rows);
    }
    out
}

/// Whether `device` is among `devices`.
fn has_device(devices: &Vec<Device>, device: &Device) -> (found: bool)
    ensures
        found == device_views(devices@).contains(device@),
{
    let mut i: usize = 0;
    while i < devices.len()
        invariant
            i <= devices.len(),
            forall|j: int| 0 <= j < i ==> device_views(devices@)[j] != device@,
        decreases devices.len() - i,
    {
        if devices[i] == *device {
            assert(device_views(devices@)[i as int] == device@);
            return true;
        }
        i += 1;
    }
    false
}

impl ClipboardData {
    /// An empty mailbox with a fresh fan-out channel.
    pub fn new() -> (mailbox: ClipboardData)
        ensures
            mailbox@ == MailboxView::empty(),
            mailbox@.wf(),
    {
        let ws_tx = open_channel(CHANNEL_CAPACITY);
        let mailbox = ClipboardData {
            data: Vec::new(),
            devices: Vec::new(),
            subscribers: Vec::new(),
            ws_tx: Arc::new(ws_tx),
        };
        assert(mailbox@.history =~= Seq::empty());
        assert(mailbox@.pending =~= Seq::empty());
        mailbox
    }

    /// Takes in `entry`, pushed by `origin`, a device of a user whose
    /// devices are `devices`. A full history gives up its oldest entry,
    /// then the entry is appended, the other devices of the user become
    /// the pending ones, and the entry goes out on the fan-out channel.
    /// The result is the number of live receivers the channel had, or
    /// nothing when it had none.
    pub fn push(&mut self, entry: Clipboard, devices: &Vec<Device>, origin: &Device) -> (receivers:
        Option<usize>)
        ensures
            final(self)@ == old(self)@.pushed(entry@, device_views(devices@), origin@),
            old(self)@.wf() ==> final(self)@.wf(),
            receivers matches Some(n) ==> n >= 1,
    {
        let ghost before = self.data@;
        if self.data.len() >= HISTORY_CAPACITY {
            self.data.remove(0);
        }
        let ghost kept = self.data@;
        let copy = entry.clone();
        self.data.push(entry);
        proof {
            if before.len() >= HISTORY_CAPACITY {
                assert(kept =~= before.drop_first());
                assert(entry_views(kept) =~= entry_views(before).drop_first());
            }
            assert(entry_views(self.data@) =~= entry_views(kept).push(entry@));
        }
        self.devices = devices_other_than(devices, origin);
        publish(&self.ws_tx, copy)
    }

    /// The latest entry for `device`, once: if there is an entry and
    /// `device` is pending, the entry is returned and `device` is pending
    /// no longer; else nothing is returned and nothing changes.
    pub fn pull_latest_for(&mut self, device: &Device) -> (entry: Option<Clipboard>)
        ensures
            match entry {
                Some(e) => old(self)@.latest_for(device@) == Some(e@),
                None => old(self)@.latest_for(device@) is None,
            },
            final(self)@ == old(self)@.pulled(device@),
            old(self)@.wf() ==> final(self)@.wf(),
    {
        let n = self.data.len();
        if n > 0 && has_device(&self.devices, device) {
            let entry = self.data[n - 1].clone();
            self.devices = devices_other_than(&self.devices, device);
            assert(entry_views(self.data@).last() == self.data@[n - 1]@);
            Some(entry)
        } else {
            None
        }
    }

    /// Records that `device` has received the latest entry over its live
    /// session: it is pending no longer.
    pub fn mark_delivered(&mut self, device: &Device)
        ensures
            final(self)@ == old(self)@.seen_by(device@),
            old(self)@.wf() ==> final(self)@.wf(),
    {
        self.devices = devices_other_than(&self.devices, device);
    }

    /// Adds `session` to the roster, unless it is there, and gives it a
    /// receiver on the fan-out channel, which sees the entries pushed
    /// from now on.
    pub fn subscribe(&mut self, session: u64) -> (rx: Receiver<Clipboard>)
        ensures
            final(self)@ == old(self)@.subscribed(session),
            old(self)@.wf() ==> final(self)@.wf(),
    {
        if !self.has_subscriber(session) {
            self.subscribers.push(session);
        }
        attach(&self.ws_tx)
    }

    /// Whether `session` is on the roster.
    pub fn has_subscriber(&self, session: u64) -> (found: bool)
        ensures
            found == self@.subscribers.contains(session),
    {
        let mut i: usize = 0;
        while i < self.subscribers.len()
            invariant
                i <= self.subscribers.len(),
                forall|j: int| 0 <= j < i ==> self.subscribers@[j] != session,
            decreases self.subscribers.len() - i,
        {
            if self.subscribers[i] == session {
                return true;
            }
            i += 1;
        }
        false
    }

    /// Takes `session` off the roster.
    pub fn unsubscribe(&mut self, session: u64)
        ensures
            final(self)@ == old(self)@.unsubscribed(session),
            old(self)@.wf() ==> final(self)@.wf(),
    {
        let mut kept: Vec<u64> = Vec::new();
        let ghost rows = self.subscribers@;
        let ghost p = session_other_than(session);
        let mut i: usize = 0;
        proof {
            assert(rows.take(0) =~= Seq::empty());
            reveal(Seq::filter);
        }
        while i < self.subscribers.len()
            invariant
                i <= self.subscribers.len(),
                rows == self.subscribers@,
                p == session_other_than(session),
                kept@ == rows.take(i as int).filter(p),
            decreases self.subscribers.len() - i,
        {
            proof {
                lemma_take_push(rows, i as int);
                rows.take(i as int).lemma_filter_push(rows[i as int], p);
            }
            if self.subscribers[i] != session {
                kept.push(self.subscribers[i]);
            }
            i += 1;
        }
        proof {
            assert(rows.take(i as int) =~= rows);
            if rows.no_duplicates() {
                lemma_filter_no_duplicates(rows, p);
            }
        }
        self.subscribers = kept;
    }
}

/// The history after the entries of `entries` were pushed one after
/// another, first to last.
pub open spec fn history_after_all(history: Seq<ClipboardView>, entries: Seq<ClipboardView>) -> Seq<
    ClipboardView,
>
    decreases entries.len(),
{
    if entries.len() == 0 {
        history
    } else {
        history_after(history_after_all(history, entries.drop_last()), entries.last())
    }
}

/// The last `n` elements of `s`, or all of `s` where it has fewer.
pub open spec fn newest<A>(s: Seq<A>, n: nat) -> Seq<A> {
    if s.len() <= n {
        s
    } else {
        s.skip(s.len() - n)
    }
}

/// However many entries are pushed into a history that was within its
/// capacity, it stays within it, and it holds the newest entries of all
/// that it was given, in the order of the pushes. After a hundred pushes
/// or more those are exactly the last hundred entries pushed.
pub proof fn lemma_history_keeps_newest(history: Seq<ClipboardView>, entries: Seq<ClipboardView>)
    requires
        history.len() <= HISTORY_CAPACITY,
    ensures
        history_after_all(history, entries).len() <= HISTORY_CAPACITY,
        history_after_all(history, entries) == newest(
            history + entries,
            HISTORY_CAPACITY as nat,
        ),
        entries.len() >= HISTORY_CAPACITY ==> history_after_all(history, entries) == entries.skip(
            entries.len() - HISTORY_CAPACITY,
        ),
    decreases entries.len(),
{
    let all = history + entries;
    if entries.len() == 0 {
        assert(all =~= history);
    } else {
        let front = entries.drop_last();
        lemma_history_keeps_newest(history, front);
        let before = history_after_all(history, front);
        assert(all =~= (history + front).push(entries.last()));
        assert(history_after(before, entries.last()) =~= newest(all, HISTORY_CAPACITY as nat));
    }
    if entries.len() >= HISTORY_CAPACITY {
        assert(newest(all, HISTORY_CAPACITY as nat) =~= entries.skip(
            entries.len() - HISTORY_CAPACITY,
        ));
    }
}

/// Two pushes, one after the other, lose neither entry: the history ends
/// with the two entries in the order of the pushes, and before them it
/// holds the newest entries of what it held, in their order.
pub proof fn lemma_pushes_in_order(history: Seq<ClipboardView>, a: ClipboardView, b: ClipboardView)
    requires
        history.len() <= HISTORY_CAPACITY,
    ensures
        ({
            let after = history_after(history_after(history, a), b);
            &&& after.len() >= 2
            &&& after[after.len() - 2] == a
            &&& after[after.len() - 1] == b
            &&& after == newest(history.push(a).push(b), HISTORY_CAPACITY as nat)
        }),
{
    let after = history_after(history_after(history, a), b);
    assert(after =~= newest(history.push(a).push(b), HISTORY_CAPACITY as nat));
}

/// After a push by `origin`, every other device of the user is pending,
/// and `origin` is not.
pub proof fn lemma_push_marks_others(
    mailbox: MailboxView,
    entry: ClipboardView,
    devices: Seq<DeviceView>,
    origin: DeviceView,
)
    ensures
        !mailbox.pushed(entry, devices, origin).pending.contains(origin),
        forall|d: DeviceView|
            devices.contains(d) && d != origin ==> #[trigger] mailbox.pushed(
                entry,
                devices,
                origin,
            ).pending.contains(d),
{
    let p = other_than(origin);
    let pending = devices.filter(p);
    if pending.contains(origin) {
        let i = choose|i: int| 0 <= i < pending.len() && pending[i] == origin;
        devices.lemma_filter_pred(p, i);
    }
    assert forall|d: DeviceView| devices.contains(d) && d != origin implies pending.contains(
        d,
    ) by {
        let i = choose|i: int| 0 <= i < devices.len() && devices[i] == d;
        devices.lemma_filter_contains(p, i);
    }
}

/// A device stays pending while others see the latest entry, over a live
/// session or by a pull: only its own receipt or pull takes it off.
pub proof fn lemma_pending_until_seen(mailbox: MailboxView, device: DeviceView, other: DeviceView)
    requires
        mailbox.pending.contains(device),
        other != device,
    ensures
        mailbox.seen_by(other).pending.contains(device),
        mailbox.pulled(other).pending.contains(device),
        forall|s: u64| (#[trigger] mailbox.subscribed(s)).pending == mailbox.pending,
        forall|s: u64| (#[trigger] mailbox.unsubscribed(s)).pending == mailbox.pending,
        !mailbox.seen_by(device).pending.contains(device),
{
    let i = choose|i: int| 0 <= i < mailbox.pending.len() && mailbox.pending[i] == device;
    mailbox.pending.lemma_filter_contains(other_than(other), i);
    lemma_seen_once(mailbox, device);
}

/// A device that has seen the latest entry is pending no longer.
pub proof fn lemma_seen_once(mailbox: MailboxView, device: DeviceView)
    ensures
        !mailbox.seen_by(device).pending.contains(device),
{
    let p = other_than(device);
    let pending = mailbox.pending.filter(p);
    if pending.contains(device) {
        let i = choose|i: int| 0 <= i < pending.len() && pending[i] == device;
        mailbox.pending.lemma_filter_pred(p, i);
    }
}

/// A pull hands out the latest entry at most once: the pull of a device
/// that follows its own pull, with no push between them, returns nothing
/// and changes nothing. So does one that follows a live delivery to it.
pub proof fn lemma_pull_once(mailbox: MailboxView, device: DeviceView)
    ensures
        mailbox.pulled(device).latest_for(device) is None,
        mailbox.pulled(device).pulled(device) == mailbox.pulled(device),
        mailbox.seen_by(device).latest_for(device) is None,
{
    lemma_seen_once(mailbox, device);
}

/// A session that has left the roster is on it no longer, whatever is
/// pushed afterwards, and the other sessions stay.
pub proof fn lemma_unsubscribed_is_gone(
    mailbox: MailboxView,
    session: u64,
    entry: ClipboardView,
    devices: Seq<DeviceView>,
    origin: DeviceView,
)
    ensures
        !mailbox.unsubscribed(session).subscribers.contains(session),
        !mailbox.unsubscribed(session).pushed(entry, devices, origin).subscribers.contains(
            session,
        ),
        forall|s: u64|
            s != session && mailbox.subscribers.contains(s) ==> #[trigger] mailbox.unsubscribed(
                session,
            ).subscribers.contains(s),
{
    let p = session_other_than(session);
    let kept = mailbox.subscribers.filter(p);
    if kept.contains(session) {
        let i = choose|i: int| 0 <= i < kept.len() && kept[i] == session;
        mailbox.subscribers.lemma_filter_pred(p, i);
    }
    assert forall|s: u64| s != session && mailbox.subscribers.contains(s) implies kept.contains(
        s,
    ) by {
        let i = choose|i: int| 0 <= i < mailbox.subscribers.len() && mailbox.subscribers[i] == s;
        mailbox.subscribers.lemma_filter_contains(p, i);
    }
}

/// The mathematical value of the store: the mailbox of each user that
/// has one, and the number of live connections.
pub struct StoreView {
    pub mailboxes: Map<u64, MailboxView>,
    pub client_n: u8,
}

impl StoreView {
    /// The mailbox of `user_id`: the one in the store, or the empty one
    /// that its first use will create.
    pub open spec fn mailbox(self, user_id: u64) -> MailboxView {
        if self.mailboxes.contains_key(user_id) {
            self.mailboxes[user_id]
        } else {
            MailboxView::empty()
        }
    }

    /// The store with `mailbox` as the mailbox of `user_id`, and every
    /// other mailbox as it was.
    pub open spec fn with_mailbox(self, user_id: u64, mailbox: MailboxView) -> StoreView {
        StoreView { mailboxes: self.mailboxes.insert(user_id, mailbox), ..self }
    }

    /// Every mailbox is well formed.
    pub open spec fn wf(self) -> bool {
        forall|user_id: u64| #[trigger]
            self.mailboxes.contains_key(user_id) ==> self.mailboxes[user_id].wf()
    }
}

/// The store of all mailboxes, keyed by the id of the user, with the
/// count of live connections.
#[derive(Debug)]
pub struct AppState {
    pub clipboard_datas: HashMap<u64, ClipboardData>,
    pub client_n: u8,
}

/// The values of the mailboxes of a store.
pub open spec fn mailbox_views(mailboxes: Map<u64, ClipboardData>) -> Map<u64, MailboxView> {
    mailboxes.map_values(|m: ClipboardData| m@)
}

impl View for AppState {
    type V = StoreView;

    open spec fn view(&self) -> StoreView {
        StoreView { mailboxes: mailbox_views(self.clipboard_datas@), client_n: self.client_n }
    }
}

/// Takes the mailbox of `user_id` out of the table, or makes an empty one.
fn take_mailbox(table: &mut HashMap<u64, ClipboardData>, user_id: u64) -> (mailbox: ClipboardData)
    ensures
        final(table)@ == old(table)@.remove(user_id),
        old(table)@.contains_key(user_id) ==> mailbox == old(table)@[user_id],
        !old(table)@.contains_key(user_id) ==> mailbox@ == MailboxView::empty(),
{
    broadcast use vstd::std_specs::hash::group_hash_axioms;

    match table.remove(&user_id) {
        Some(mailbox) => mailbox,
        None => ClipboardData::new(),
    }
}

/// Puts `mailbox` into the table as the mailbox of `user_id`.
fn put_mailbox(table: &mut HashMap<u64, ClipboardData>, user_id: u64, mailbox: ClipboardData)
    ensures
        final(table)@ == old(table)@.insert(user_id, mailbox),
{
    broadcast use vstd::std_specs::hash::group_hash_axioms;

    table.insert(user_id, mailbox);
}

impl AppState {
    /// An empty store with no live connection.
    pub fn new() -> (state: AppState)
        ensures
            state@ == (StoreView { mailboxes: Map::empty(), client_n: 0 }),
            state@.wf(),
    {
        let state = AppState { clipboard_datas: HashMap::new(), client_n: 0 };
        assert(state@.mailboxes =~= Map::empty());
        state
    }

    /// Makes sure that `user_id` has a mailbox: an existing one stays as
    /// it is, else an empty one is created. No other mailbox changes.
    pub fn get_or_create(&mut self, user_id: u64)
        ensures
            final(self)@ == old(self)@.with_mailbox(user_id, old(self)@.mailbox(user_id)),
            old(self)@.wf() ==> final(self)@.wf(),
    {
        let ghost before = self.clipboard_datas@;
        let mailbox = take_mailbox(&mut self.clipboard_datas, user_id);
        put_mailbox(&mut self.clipboard_datas, user_id, mailbox);
        proof {
            assert(self@.mailboxes =~= mailbox_views(before).insert(
                user_id,
                old(self)@.mailbox(user_id),
            ));
        }
    }

    /// Pushes `entry` from `origin` into the mailbox of `user`, which is
    /// created if need be. No other mailbox changes. The result is the
    /// number of live receivers the fan-out channel had, or nothing when
    /// it had none.
    pub fn push(&mut self, user: &User, entry: Clipboard, origin: &Device) -> (receivers: Option<
        usize,
    >)
        ensures
            final(self)@ == old(self)@.with_mailbox(
                user.id,
                old(self)@.mailbox(user.id).pushed(entry@, user@.devices, origin@),
            ),
            old(self)@.wf() ==> final(self)@.wf(),
            receivers matches Some(n) ==> n >= 1,
    {
        let ghost before = self.clipboard_datas@;
        let mut mailbox = take_mailbox(&mut self.clipboard_datas, user.id);
        let receivers = mailbox.push(entry, &user.devices, origin);
        put_mailbox(&mut self.clipboard_datas, user.id, mailbox);
        proof {
            assert(self@.mailboxes =~= mailbox_views(before).insert(user.id, mailbox@));
        }
        receivers
    }

    /// The latest entry of `user_id` for `device`, once: see
    /// [`ClipboardData::pull_latest_for`]. No other mailbox changes.
    pub fn pull_latest_for(&mut self, user_id: u64, device: &Device) -> (entry: Option<Clipboard>)
        ensures
            match entry {
                Some(e) => old(self)@.mailbox(user_id).latest_for(device@) == Some(e@),
                None => old(self)@.mailbox(user_id).latest_for(device@) is None,
            },
            final(self)@ == old(self)@.with_mailbox(
                user_id,
                old(self)@.mailbox(user_id).pulled(device@),
            ),
            old(self)@.wf() ==> final(self)@.wf(),
    {
        let ghost before = self.clipboard_datas@;
        let mut mailbox = take_mailbox(&mut self.clipboard_datas, user_id);
        let entry = mailbox.pull_latest_for(device);
        put_mailbox(&mut self.clipboard_datas, user_id, mailbox);
        proof {
            assert(self@.mailboxes =~= mailbox_views(before).insert(user_id, mailbox@));
        }
        entry
    }

    /// Records that `device` received the latest entry of `user_id` over
    /// its live session. No other mailbox changes.
    pub fn mark_delivered(&mut self, user_id: u64, device: &Device)
        ensures
            final(self)@ == old(self)@.with_mailbox(
                user_id,
                old(self)@.mailbox(user_id).seen_by(device@),
            ),
            old(self)@.wf() ==> final(self)@.wf(),
    {
        let ghost before = self.clipboard_datas@;
        let mut mailbox = take_mailbox(&mut self.clipboard_datas, user_id);
        mailbox.mark_delivered(device);
        put_mailbox(&mut self.clipboard_datas, user_id, mailbox);
        proof {
            assert(self@.mailboxes =~= mailbox_views(before).insert(user_id, mailbox@));
        }
    }

    /// Attaches `session` to the mailbox of `user_id`, which is created
    /// if need be, and returns its receiver. No other mailbox changes.
    pub fn subscribe(&mut self, user_id: u64, session: u64) -> (rx: Receiver<Clipboard>)
        ensures
            final(self)@ == old(self)@.with_mailbox(
                user_id,
                old(self)@.mailbox(user_id).subscribed(session),
            ),
            old(self)@.wf() ==> final(self)@.wf(),
    {
        let ghost before = self.clipboard_datas@;
        let mut mailbox = take_mailbox(&mut self.clipboard_datas, user_id);
        let rx = mailbox.subscribe(session);
        put_mailbox(&mut self.clipboard_datas, user_id, mailbox);
        proof {
            assert(self@.mailboxes =~= mailbox_views(before).insert(user_id, mailbox@));
        }
        rx
    }

    /// Detaches `session` from the mailbox of `user_id`. No other mailbox
    /// changes.
    pub fn unsubscribe(&mut self, user_id: u64, session: u64)
        ensures
            final(self)@ == old(self)@.with_mailbox(
                user_id,
                old(self)@.mailbox(user_id).unsubscribed(session),
            ),
            old(self)@.wf() ==> final(self)@.wf(),
    {
        let ghost before = self.clipboard_datas@;
        let mut mailbox = take_mailbox(&mut self.clipboard_datas, user_id);
        mailbox.unsubscribe(session);
        proof {
            reveal(Seq::filter);
        }
        put_mailbox(&mut self.clipboard_datas, user_id, mailbox);
        proof {
            assert(self@.mailboxes =~= mailbox_views(before).insert(user_id, mailbox@));
        }
    }

    /// Counts one more live connection. At 255 the count is full and the
    /// connection is not counted.
    pub fn connected(&mut self) -> (counted: bool)
        ensures
            counted == (old(self)@.client_n < u8::MAX),
            final(self)@.mailboxes == old(self)@.mailboxes,
            final(self)@.client_n == if counted {
                (old(self)@.client_n + 1) as u8
            } else {
                old(self)@.client_n
            },
    {
        if self.client_n < u8::MAX {
            self.client_n = self.client_n + 1;
            true
        } else {
            false
        }
    }

    /// Counts one live connection less; a count of zero stays.
    pub fn disconnected(&mut self)
        ensures
            final(self)@.mailboxes == old(self)@.mailboxes,
            final(self)@.client_n == if old(self)@.client_n > 0 {
                (old(self)@.client_n - 1) as u8
            } else {
                0u8
            },
    {
        if self.client_n > 0 {
            self.client_n = self.client_n - 1;
        }
    }
}

} // verus!
