//! The registry of users and devices: three tables held in memory, with
//! the keyed queries the server needs. Rows keep the order in which they
//! were inserted; ids come from one counter per table.

use super::DeviceType;
use crate::utils::{AiError, ErrorKind, ErrorView};
use vstd::prelude::*;

verus! {

/// The mathematical value of a row of the table of users.
pub struct UserRow {
    pub id: u64,
    pub name: Seq<char>,
}

/// A row of the table of users.
#[derive(Debug)]
pub struct DatabaseUser {
    pub id: u64,
    pub name: String,
}

impl View for DatabaseUser {
    type V = UserRow;

    open spec fn view(&self) -> UserRow {
        UserRow { id: self.id, name: self.name@ }
    }
}

impl Clone for DatabaseUser {
    fn clone(&self) -> (copy: DatabaseUser)
        ensures
            copy@ == self@,
    {
        DatabaseUser { id: self.id, name: self.name.clone() }
    }
}

/// The mathematical value of a device.
pub struct DeviceView {
    pub id: u64,
    pub name: Seq<char>,
    pub notification: Seq<char>,
    pub device_type: DeviceType,
}

/// A row of the table of devices: a device with its human name, its
/// notification token and its class.
#[derive(Debug)]
pub struct DatabaseDevice {
    pub id: u64,
    pub name: String,
    pub notification: String,
    pub device_type: DeviceType,
}

impl View for DatabaseDevice {
    type V = DeviceView;

    open spec fn view(&self) -> DeviceView {
        DeviceView {
            id: self.id,
            name: self.name@,
            notification: self.notification@,
            device_type: self.device_type,
        }
    }
}

impl Clone for DatabaseDevice {
    fn clone(&self) -> (copy: DatabaseDevice)
        ensures
            copy@ == self@,
    {
        DatabaseDevice {
            id: self.id,
            name: self.name.clone(),
            notification: self.notification.clone(),
            device_type: self.device_type,
        }
    }
}

impl PartialEq for DatabaseDevice {
    fn eq(&self, other: &DatabaseDevice) -> (same: bool) {
        self.id == other.id && self.name == other.name && self.notification == other.notification
            && self.device_type == other.device_type
    }
}

impl vstd::std_specs::cmp::PartialEqSpecImpl for DatabaseDevice {
    open spec fn obeys_eq_spec() -> bool {
        true
    }

    open spec fn eq_spec(&self, other: &DatabaseDevice) -> bool {
        self@ == other@
    }
}

/// A row of the junction table: user `user_id` owns device `device_id`.
#[derive(Debug, Clone, Copy, PartialEq, Eq, Structural)]
pub struct DatabaseUserDevice {
    pub id: u64,
    pub user_id: u64,
    pub device_id: u64,
}

/// The values of a sequence of user rows.
pub open spec fn user_rows(rows: Seq<DatabaseUser>) -> Seq<UserRow> {
    rows.map_values(|u: DatabaseUser| u@)
}

/// The values of a sequence of devices.
pub open spec fn device_views(rows: Seq<DatabaseDevice>) -> Seq<DeviceView> {
    rows.map_values(|d: DatabaseDevice| d@)
}

/// The mathematical value of the registry: its three tables in insertion
/// order and the last id handed out for each.
pub struct RegistryView {
    pub users: Seq<UserRow>,
    pub devices: Seq<DeviceView>,
    pub user_device: Seq<DatabaseUserDevice>,
    pub user_seq: u64,
    pub device_seq: u64,
    pub user_device_seq: u64,
}

/// The registry of users, devices and their ownership.
#[derive(Debug)]
pub struct Registry {
    pub users: Vec<DatabaseUser>,
    pub devices: Vec<DatabaseDevice>,
    pub user_device: Vec<DatabaseUserDevice>,
    pub user_seq: u64,
    pub device_seq: u64,
    pub user_device_seq: u64,
}

impl View for Registry {
    type V = RegistryView;

    open spec fn view(&self) -> RegistryView {
        RegistryView {
            users: user_rows(self.users@),
            devices: device_views(self.devices@),
            user_device: self.user_device@,
            user_seq: self.user_seq,
            device_seq: self.device_seq,
            user_device_seq: self.user_device_seq,
        }
    }
}

/// The first element of `s` that satisfies `p`, if there is one.
pub open spec fn first_match<A>(s: Seq<A>, p: spec_fn(A) -> bool) -> Option<A>
    decreases s.len(),
{
    if s.len() == 0 {
        None
    } else if p(s[0]) {
        Some(s[0])
    } else {
        first_match(s.drop_first(), p)
    }
}

/// The users named `name`.
pub open spec fn named(name: Seq<char>) -> spec_fn(UserRow) -> bool {
    |u: UserRow| u.name == name
}

/// The users with the id `id`.
pub open spec fn user_with_id(id: u64) -> spec_fn(UserRow) -> bool {
    |u: UserRow| u.id == id
}

/// The users with another id than `id`.
pub open spec fn user_without_id(id: u64) -> spec_fn(UserRow) -> bool {
    |u: UserRow| u.id != id
}

/// The devices with the name `name` and the class `device_type`.
pub open spec fn device_like(name: Seq<char>, device_type: DeviceType) -> spec_fn(
    DeviceView,
) -> bool {
    |d: DeviceView| d.name == name && d.device_type == device_type
}

/// The devices with another id than `id`.
pub open spec fn device_without_id(id: u64) -> spec_fn(DeviceView) -> bool {
    |d: DeviceView| d.id != id
}

/// The junction rows with another id than `id`.
pub open spec fn link_without_id(id: u64) -> spec_fn(DatabaseUserDevice) -> bool {
    |l: DatabaseUserDevice| l.id != id
}

/// Whether the junction table says that user `user_id` owns device
/// `device_id`.
pub open spec fn linked(links: Seq<DatabaseUserDevice>, user_id: u64, device_id: u64) -> bool {
    exists|i: int|
        0 <= i < links.len() && (#[trigger] links[i]).user_id == user_id && links[i].device_id
            == device_id
}

/// The devices that user `user_id` owns.
pub open spec fn owned_by(links: Seq<DatabaseUserDevice>, user_id: u64) -> spec_fn(
    DeviceView,
) -> bool {
    |d: DeviceView| linked(links, user_id, d.id)
}

/// The users that own device `device_id`.
pub open spec fn owner_of(links: Seq<DatabaseUserDevice>, device_id: u64) -> spec_fn(
    UserRow,
) -> bool {
    |u: UserRow| linked(links, u.id, device_id)
}

impl RegistryView {
    /// In each table every id is at most the last one handed out, and no
    /// id occurs twice.
    pub open spec fn ids_wf(self) -> bool {
        &&& forall|i: int| 0 <= i < self.users.len() ==> (#[trigger] self.users[i]).id
            <= self.user_seq
        &&& forall|i: int, j: int|
            0 <= i < j < self.users.len() ==> (#[trigger] self.users[i]).id
                != (#[trigger] self.users[j]).id
        &&& forall|i: int| 0 <= i < self.devices.len() ==> (#[trigger] self.devices[i]).id
            <= self.device_seq
        &&& forall|i: int, j: int|
            0 <= i < j < self.devices.len() ==> (#[trigger] self.devices[i]).id
                != (#[trigger] self.devices[j]).id
        &&& forall|i: int|
            0 <= i < self.user_device.len() ==> (#[trigger] self.user_device[i]).id
                <= self.user_device_seq
        &&& forall|i: int, j: int|
            0 <= i < j < self.user_device.len() ==> (#[trigger] self.user_device[i]).id
                != (#[trigger] self.user_device[j]).id
    }

    /// No two devices have the same name and class.
    pub open spec fn devices_unique(self) -> bool {
        forall|i: int, j: int|
            0 <= i < j < self.devices.len() ==> !((#[trigger] self.devices[i]).name
                == (#[trigger] self.devices[j]).name && self.devices[i].device_type
                == self.devices[j].device_type)
    }

    /// Every junction row names a device id that was handed out, and no
    /// device has two of them: a device has one owner at most.
    pub open spec fn single_owner(self) -> bool {
        &&& forall|i: int|
            0 <= i < self.user_device.len() ==> (#[trigger] self.user_device[i]).device_id
                <= self.device_seq
        &&& forall|i: int, j: int|
            0 <= i < j < self.user_device.len() ==> (#[trigger] self.user_device[i]).device_id
                != (#[trigger] self.user_device[j]).device_id
    }

    /// The registry is well formed: ids are in order, a name and class
    /// is registered once, and a device has one owner at most.
    pub open spec fn wf(self) -> bool {
        &&& self.ids_wf()
        &&& self.devices_unique()
        &&& self.single_owner()
    }

    /// The registry after a user row `row` was appended.
    pub open spec fn with_user(self, row: UserRow) -> RegistryView {
        RegistryView { users: self.users.push(row), user_seq: row.id, ..self }
    }

    /// The registry after the device `device` was appended.
    pub open spec fn with_device(self, device: DeviceView) -> RegistryView {
        RegistryView { devices: self.devices.push(device), device_seq: device.id, ..self }
    }

    /// The registry after a junction row for `user_id` and `device_id`
    /// was appended under the next id.
    pub open spec fn with_link(self, user_id: u64, device_id: u64) -> RegistryView {
        RegistryView {
            user_device: self.user_device.push(
                DatabaseUserDevice { id: (self.user_device_seq + 1) as u64, user_id, device_id },
            ),
            user_device_seq: (self.user_device_seq + 1) as u64,
            ..self
        }
    }

    /// The outcome of resolving the device named `name` of class
    /// `device_type`: the first such row and the registry as it is; or,
    /// where there is none, a new row with an empty notification token
    /// and the registry with it; or the error of a table whose ids are
    /// used up.
    pub open spec fn resolved(self, name: Seq<char>, device_type: DeviceType) -> Result<
        (DeviceView, RegistryView),
        ErrorView,
    > {
        match first_match(self.devices, device_like(name, device_type)) {
            Some(d) => Ok((d, self)),
            None => if self.device_seq == u64::MAX {
                Err(sequence_exhausted())
            } else {
                let d = DeviceView {
                    id: (self.device_seq + 1) as u64,
                    name,
                    notification: Seq::empty(),
                    device_type,
                };
                Ok((d, self.with_device(d)))
            },
        }
    }

    /// The devices that `user_id` owns, in table order.
    pub open spec fn devices_of(self, user_id: u64) -> Seq<DeviceView> {
        self.devices.filter(owned_by(self.user_device, user_id))
    }

    /// The users that own `device_id`, in table order.
    pub open spec fn owners_of(self, device_id: u64) -> Seq<UserRow> {
        self.users.filter(owner_of(self.user_device, device_id))
    }
}

/// The error for a table whose ids are used up.
pub open spec fn sequence_exhausted() -> ErrorView {
    ErrorView { kind: ErrorKind::UpstreamFailure, err: "id sequence exhausted"@ }
}

/// `first_match` finds nothing exactly where no element satisfies the
/// predicate, and what it finds is an element that satisfies it.
pub proof fn lemma_first_match<A>(s: Seq<A>, p: spec_fn(A) -> bool)
    ensures
        first_match(s, p) is None <==> forall|i: int| 0 <= i < s.len() ==> !p(#[trigger] s[i]),
        first_match(s, p) matches Some(x) ==> p(x) && s.contains(x),
    decreases s.len(),
{
    if s.len() > 0 {
        let rest = s.drop_first();
        lemma_first_match(rest, p);
        if !p(s[0]) {
            assert forall|i: int| 0 <= i < rest.len() implies rest[i] == s[i + 1] by {}
            if first_match(rest, p) is None {
                assert forall|i: int| 0 <= i < s.len() implies !p(#[trigger] s[i]) by {
                    if i > 0 {
                        assert(rest[i - 1] == s[i]);
                    }
                }
            } else {
                let x = first_match(rest, p)->Some_0;
                let k = choose|k: int| 0 <= k < rest.len() && rest[k] == x;
                assert(s[k + 1] == x);
                assert(p(s[k + 1]));
            }
        } else {
            assert(s[0] == s[0]);
        }
    }
}

/// What is kept of a sequence is part of it, in its order: each element
/// kept stands in the sequence, and of two kept the earlier one stands
/// earlier.
proof fn lemma_filter_positions<A>(s: Seq<A>, p: spec_fn(A) -> bool) -> (at: Seq<int>)
    ensures
        at.len() == s.filter(p).len(),
        forall|i: int|
            0 <= i < at.len() ==> 0 <= #[trigger] at[i] < s.len() && s[at[i]] == s.filter(p)[i],
        forall|i: int, j: int| 0 <= i < j < at.len() ==> #[trigger] at[i] < #[trigger] at[j],
    decreases s.len(),
{
    reveal(Seq::filter);
    if s.len() == 0 {
        Seq::empty()
    } else {
        let front = lemma_filter_positions(s.drop_last(), p);
        if p(s.last()) {
            front.push(s.len() - 1)
        } else {
            front
        }
    }
}

/// Appending a user under the next id keeps the ids in order.
pub proof fn lemma_with_user_keeps_wf(db: RegistryView, name: Seq<char>)
    requires
        db.user_seq < u64::MAX,
    ensures
        db.ids_wf() ==> db.with_user(UserRow { id: (db.user_seq + 1) as u64, name }).ids_wf(),
        db.wf() ==> db.with_user(UserRow { id: (db.user_seq + 1) as u64, name }).wf(),
{
}

/// Appending a junction row under the next id keeps the ids in order.
pub proof fn lemma_with_link_keeps_ids(db: RegistryView, user_id: u64, device_id: u64)
    requires
        db.user_device_seq < u64::MAX,
    ensures
        db.ids_wf() ==> db.with_link(user_id, device_id).ids_wf(),
{
}

/// Appending a device under the next id keeps the ids in order; where no
/// device of its name and class was registered, the registry stays well
/// formed.
pub proof fn lemma_with_device_keeps_wf(db: RegistryView, device: DeviceView)
    requires
        db.device_seq < u64::MAX,
        device.id == db.device_seq + 1,
    ensures
        db.ids_wf() ==> db.with_device(device).ids_wf(),
        db.wf() && first_match(db.devices, device_like(device.name, device.device_type))
            is None ==> db.with_device(device).wf(),
{
    lemma_first_match(db.devices, device_like(device.name, device.device_type));
}

/// Resolving a device keeps the registry well formed, gives a device of
/// the name and class asked for that is registered afterwards, and gives
/// the same device when it is asked for again.
pub proof fn lemma_resolved(db: RegistryView, name: Seq<char>, device_type: DeviceType)
    ensures
        db.resolved(name, device_type) matches Ok((d, after)) ==> {
            &&& d.name == name
            &&& d.device_type == device_type
            &&& after.devices.contains(d)
            &&& db.ids_wf() ==> after.ids_wf()
            &&& db.wf() ==> after.wf()
            &&& after.resolved(name, device_type) == Ok::<(DeviceView, RegistryView), ErrorView>(
                (d, after),
            )
        },
{
    let p = device_like(name, device_type);
    lemma_first_match(db.devices, p);
    if db.resolved(name, device_type) is Ok {
        let (d, after) = db.resolved(name, device_type)->Ok_0;
        if first_match(db.devices, p) is None {
            lemma_with_device_keeps_wf(db, d);
            assert(after.devices.last() == d);
            lemma_first_match_of_push(db.devices, d, p);
        }
    }
}

/// Where nothing of a sequence satisfies a predicate and an element that
/// does is appended, `first_match` finds that element.
proof fn lemma_first_match_of_push<A>(s: Seq<A>, x: A, p: spec_fn(A) -> bool)
    requires
        first_match(s, p) is None,
        p(x),
    ensures
        first_match(s.push(x), p) == Some(x),
    decreases s.len(),
{
    if s.len() > 0 {
        assert(s.push(x).drop_first() =~= s.drop_first().push(x));
        lemma_first_match_of_push(s.drop_first(), x, p);
    }
}

/// Registering a device with its owner keeps the registry well formed.
pub proof fn lemma_with_owned_device_keeps_wf(db: RegistryView, device: DeviceView, user_id: u64)
    requires
        db.wf(),
        db.device_seq < u64::MAX,
        db.user_device_seq < u64::MAX,
        device.id == db.device_seq + 1,
        first_match(db.devices, device_like(device.name, device.device_type)) is None,
    ensures
        db.with_device(device).with_link(user_id, device.id).wf(),
{
    lemma_with_device_keeps_wf(db, device);
}

/// In a well-formed registry a device has one owner at most.
pub proof fn lemma_single_owner(db: RegistryView, device_id: u64)
    requires
        db.wf(),
    ensures
        db.owners_of(device_id).len() <= 1,
{
    let p = owner_of(db.user_device, device_id);
    let owners = db.users.filter(p);
    let at = lemma_filter_positions(db.users, p);
    if owners.len() >= 2 {
        db.users.lemma_filter_pred(p, 0);
        db.users.lemma_filter_pred(p, 1);
        let first = owners[0];
        let second = owners[1];
        assert(db.users[at[0]] == first && db.users[at[1]] == second);
        assert(at[0] < at[1]);
        let i = choose|i: int|
            0 <= i < db.user_device.len() && (#[trigger] db.user_device[i]).user_id == first.id
                && db.user_device[i].device_id == device_id;
        let j = choose|j: int|
            0 <= j < db.user_device.len() && (#[trigger] db.user_device[j]).user_id == second.id
                && db.user_device[j].device_id == device_id;
        assert(i == j);
        assert(false);
    }
}

/// Removing rows keeps the ids in order.
pub proof fn lemma_filter_keeps_ids(
    db: RegistryView,
    users: spec_fn(UserRow) -> bool,
    devices: spec_fn(DeviceView) -> bool,
    links: spec_fn(DatabaseUserDevice) -> bool,
)
    requires
        db.ids_wf(),
    ensures
        (RegistryView { users: db.users.filter(users), ..db }).ids_wf(),
        (RegistryView { devices: db.devices.filter(devices), ..db }).ids_wf(),
        (RegistryView { user_device: db.user_device.filter(links), ..db }).ids_wf(),
{
    let at_users = lemma_filter_positions(db.users, users);
    let at_devices = lemma_filter_positions(db.devices, devices);
    let at_links = lemma_filter_positions(db.user_device, links);
    let kept_users = db.users.filter(users);
    assert forall|i: int, j: int| 0 <= i < j < kept_users.len() implies (#[trigger] kept_users[i]).id
        != (#[trigger] kept_users[j]).id by {
        assert(at_users[i] < at_users[j]);
    }
    assert forall|i: int| 0 <= i < kept_users.len() implies (#[trigger] kept_users[i]).id
        <= db.user_seq by {
        assert(db.users[at_users[i]] == kept_users[i]);
    }
    let kept_devices = db.devices.filter(devices);
    assert forall|i: int, j: int|
        0 <= i < j < kept_devices.len() implies (#[trigger] kept_devices[i]).id
        != (#[trigger] kept_devices[j]).id by {
        assert(at_devices[i] < at_devices[j]);
    }
    assert forall|i: int| 0 <= i < kept_devices.len() implies (#[trigger] kept_devices[i]).id
        <= db.device_seq by {
        assert(db.devices[at_devices[i]] == kept_devices[i]);
    }
    let kept_links = db.user_device.filter(links);
    assert forall|i: int, j: int| 0 <= i < j < kept_links.len() implies (#[trigger] kept_links[i]).id
        != (#[trigger] kept_links[j]).id by {
        assert(at_links[i] < at_links[j]);
    }
    assert forall|i: int| 0 <= i < kept_links.len() implies (#[trigger] kept_links[i]).id
        <= db.user_device_seq by {
        assert(db.user_device[at_links[i]] == kept_links[i]);
    }
}

/// `first_match` looks no further back than the first element it has
/// not yet passed over.
proof fn lemma_first_match_skip<A>(s: Seq<A>, p: spec_fn(A) -> bool, i: int)
    requires
        0 <= i < s.len(),
        !p(s[i]),
    ensures
        first_match(s.skip(i), p) == first_match(s.skip(i + 1), p),
{
    assert(s.skip(i).drop_first() =~= s.skip(i + 1));
}

proof fn lemma_first_match_hit<A>(s: Seq<A>, p: spec_fn(A) -> bool, i: int)
    requires
        0 <= i < s.len(),
        p(s[i]),
    ensures
        first_match(s.skip(i), p) == Some(s[i]),
{
}

/// The first `i + 1` elements are the first `i` and the one after them.
pub proof fn lemma_take_push<A>(s: Seq<A>, i: int)
    requires
        0 <= i < s.len(),
    ensures
        s.take(i + 1) == s.take(i).push(s[i]),
{
    assert(s.take(i + 1) =~= s.take(i).push(s[i]));
}

fn exhausted() -> (e: AiError)
    ensures
        e@ == sequence_exhausted(),
{
    AiError::with_kind(ErrorKind::UpstreamFailure, "id sequence exhausted")
}

/// Whether some junction row says that `user_id` owns `device_id`.
fn is_linked(links: &Vec<DatabaseUserDevice>, user_id: u64, device_id: u64) -> (found: bool)
    ensures
        found == linked(links@, user_id, device_id),
{
    let mut i: usize = 0;
    while i < links.len()
        invariant
            i <= links.len(),
            forall|j: int|
                0 <= j < i ==> !((#[trigger] links@[j]).user_id == user_id && links@[j].device_id
                    == device_id),
        decreases links.len() - i,
    {
        if links[i].user_id == user_id && links[i].device_id == device_id {
            return true;
        }
        i += 1;
    }
    false
}

impl Registry {
    /// A registry with no rows, whose first ids will be 1.
    pub fn new() -> (db: Registry)
        ensures
            db@ == (RegistryView {
                users: Seq::empty(),
                devices: Seq::empty(),
                user_device: Seq::empty(),
                user_seq: 0,
                device_seq: 0,
                user_device_seq: 0,
            }),
            db@.wf(),
    {
        let db = Registry {
            users: Vec::new(),
            devices: Vec::new(),
            user_device: Vec::new(),
            user_seq: 0,
            device_seq: 0,
            user_device_seq: 0,
        };
        assert(db@.users =~= Seq::empty());
        assert(db@.devices =~= Seq::empty());
        db
    }
}

impl DatabaseUser {
    /// Appends a user named `name` and returns the id given to it, the
    /// successor of the last one. Fails, changing nothing, when the ids of
    /// the table are used up.
    pub fn insert_user(db: &mut Registry, name: String) -> (r: Result<u64, AiError>)
        ensures
            match r {
                Ok(id) => {
                    &&& old(db)@.user_seq < u64::MAX
                    &&& id == old(db)@.user_seq + 1
                    &&& final(db)@ == old(db)@.with_user(UserRow { id, name: name@ })
                },
                Err(e) => {
                    &&& old(db)@.user_seq == u64::MAX
                    &&& e@ == sequence_exhausted()
                    &&& final(db)@ == old(db)@
                },
            },
            old(db)@.ids_wf() ==> final(db)@.ids_wf(),
            old(db)@.wf() ==> final(db)@.wf(),
    {
        if db.user_seq == u64::MAX {
            return Err(exhausted());
        }
        proof {
            lemma_with_user_keeps_wf(db@, name@);
        }
        let id: u64 = db.user_seq + 1;
        let ghost before = db.users@;
        let row = DatabaseUser { id, name };
        db.users.push(row);
        db.user_seq = id;
        proof {
            assert(user_rows(db.users@) =~= user_rows(before).push(row@));
        }
        Ok(id)
    }

    /// Removes every row with this user's id.
    pub fn delete_user(&self, db: &mut Registry) -> (r: Result<(), AiError>)
        ensures
            r is Ok,
            final(db)@ == (RegistryView {
                users: old(db)@.users.filter(user_without_id(self.id)),
                ..old(db)@
            }),
            old(db)@.ids_wf() ==> final(db)@.ids_wf(),
    {
        proof {
            if db@.ids_wf() {
                lemma_filter_keeps_ids(
                    db@,
                    user_without_id(self.id),
                    device_without_id(self.id),
                    link_without_id(self.id),
                );
            }
        }
        let mut kept: Vec<DatabaseUser> = Vec::new();
        let ghost rows = db@.users;
        let ghost p = user_without_id(self.id);
        let mut i: usize = 0;
        proof {
            assert(rows.take(0) =~= Seq::empty());
            assert(user_rows(kept@) =~= Seq::empty());
            reveal(Seq::filter);
        }
        while i < db.users.len()
            invariant
                i <= db.users.len(),
                rows == user_rows(db.users@),
                p == user_without_id(self.id),
                user_rows(kept@) == rows.take(i as int).filter(p),
            decreases db.users.len() - i,
        {
            let ghost before = kept@;
            proof {
                lemma_take_push(rows, i as int);
                rows.take(i as int).lemma_filter_push(rows[i as int], p);
            }
            if db.users[i].id != self.id {
                let row = db.users[i].clone();
                kept.push(row);
                proof {
                    assert(user_rows(kept@) =~= user_rows(before).push(row@));
                }
            }
            i += 1;
        }
        proof {
            assert(rows.take(i as int) =~= rows);
        }
        db.users = kept;
        Ok(())
    }

    /// The first user named `name`, if there is one.
    pub fn find_user(db: &Registry, name: String) -> (r: Result<Option<DatabaseUser>, AiError>)
        ensures
            r matches Ok(found) && match found {
                Some(u) => first_match(db@.users, named(name@)) == Some(u@),
                None => first_match(db@.users, named(name@)) is None,
            },
    {
        let ghost rows = db@.users;
        let ghost p = named(name@);
        let mut i: usize = 0;
        proof {
            assert(rows.skip(0) =~= rows);
        }
        while i < db.users.len()
            invariant
                i <= db.users.len(),
                rows == user_rows(db.users@),
                p == named(name@),
                first_match(rows, p) == first_match(rows.skip(i as int), p),
            decreases db.users.len() - i,
        {
            if db.users[i].name == name {
                proof {
                    lemma_first_match_hit(rows, p, i as int);
                }
                return Ok(Some(db.users[i].clone()));
            }
            proof {
                lemma_first_match_skip(rows, p, i as int);
            }
            i += 1;
        }
        Ok(None)
    }

    /// The first user with the id `id`, if there is one.
    pub fn get_user(db: &Registry, id: u64) -> (r: Result<Option<DatabaseUser>, AiError>)
        ensures
            r matches Ok(found) && match found {
                Some(u) => first_match(db@.users, user_with_id(id)) == Some(u@),
                None => first_match(db@.users, user_with_id(id)) is None,
            },
    {
        let ghost rows = db@.users;
        let ghost p = user_with_id(id);
        let mut i: usize = 0;
        proof {
            assert(rows.skip(0) =~= rows);
        }
        while i < db.users.len()
            invariant
                i <= db.users.len(),
                rows == user_rows(db.users@),
                p == user_with_id(id),
                first_match(rows, p) == first_match(rows.skip(i as int), p),
            decreases db.users.len() - i,
        {
            if db.users[i].id == id {
                proof {
                    lemma_first_match_hit(rows, p, i as int);
                }
                return Ok(Some(db.users[i].clone()));
            }
            proof {
                lemma_first_match_skip(rows, p, i as int);
            }
            i += 1;
        }
        Ok(None)
    }
}

impl DatabaseDevice {
    /// Appends a device and returns it with the id given to it, the
    /// successor of the last one. Fails, changing nothing, when the ids of
    /// the table are used up.
    pub fn insert_device(
        db: &mut Registry,
        name: String,
        device_type: DeviceType,
        notification: String,
    ) -> (r: Result<DatabaseDevice, AiError>)
        ensures
            match r {
                Ok(device) => {
                    &&& old(db)@.device_seq < u64::MAX
                    &&& device@ == (DeviceView {
                        id: (old(db)@.device_seq + 1) as u64,
                        name: name@,
                        notification: notification@,
                        device_type,
                    })
                    &&& final(db)@ == old(db)@.with_device(device@)
                },
                Err(e) => {
                    &&& old(db)@.device_seq == u64::MAX
                    &&& e@ == sequence_exhausted()
                    &&& final(db)@ == old(db)@
                },
            },
            old(db)@.ids_wf() ==> final(db)@.ids_wf(),
    {
        if db.device_seq == u64::MAX {
            return Err(exhausted());
        }
        let id: u64 = db.device_seq + 1;
        let ghost before = db.devices@;
        let row = DatabaseDevice { id, name, notification, device_type };
        proof {
            lemma_with_device_keeps_wf(db@, row@);
        }
        let device = row.clone();
        db.devices.push(row);
        db.device_seq = id;
        proof {
            assert(device_views(db.devices@) =~= device_views(before).push(row@));
        }
        Ok(device)
    }

    /// Removes every row with this device's id.
    pub fn delete_device(&self, db: &mut Registry) -> (r: Result<(), AiError>)
        ensures
            r is Ok,
            final(db)@ == (RegistryView {
                devices: old(db)@.devices.filter(device_without_id(self.id)),
                ..old(db)@
            }),
            old(db)@.ids_wf() ==> final(db)@.ids_wf(),
    {
        proof {
            if db@.ids_wf() {
                lemma_filter_keeps_ids(
                    db@,
                    user_without_id(self.id),
                    device_without_id(self.id),
                    link_without_id(self.id),
                );
            }
        }
        let mut kept: Vec<DatabaseDevice> = Vec::new();
        let ghost rows = db@.devices;
        let ghost p = device_without_id(self.id);
        let mut i: usize = 0;
        proof {
            assert(rows.take(0) =~= Seq::empty());
            assert(device_views(kept@) =~= Seq::empty());
            reveal(Seq::filter);
        }
        while i < db.devices.len()
            invariant
                i <= db.devices.len(),
                rows == device_views(db.devices@),
                p == device_without_id(self.id),
                device_views(kept@) == rows.take(i as int).filter(p),
            decreases db.devices.len() - i,
        {
            let ghost before = kept@;
            proof {
                lemma_take_push(rows, i as int);
                rows.take(i as int).lemma_filter_push(rows[i as int], p);
            }
            if db.devices[i].id != self.id {
                let row = db.devices[i].clone();
                kept.push(row);
                proof {
                    assert(device_views(kept@) =~= device_views(before).push(row@));
                }
            }
            i += 1;
        }
        proof {
            assert(rows.take(i as int) =~= rows);
        }
        db.devices = kept;
        Ok(())
    }

    /// The first device with the name `name` and the class `device_type`,
    /// if there is one.
    pub fn find_device(db: &Registry, name: String, device_type: DeviceType) -> (r: Result<
        Option<DatabaseDevice>,
        AiError,
    >)
        ensures
            r matches Ok(found) && match found {
                Some(d) => first_match(db@.devices, device_like(name@, device_type)) == Some(d@),
                None => first_match(db@.devices, device_like(name@, device_type)) is None,
            },
    {
        let ghost rows = db@.devices;
        let ghost p = device_like(name@, device_type);
        let mut i: usize = 0;
        proof {
            assert(rows.skip(0) =~= rows);
        }
        while i < db.devices.len()
            invariant
                i <= db.devices.len(),
                rows == device_views(db.devices@),
                p == device_like(name@, device_type),
                first_match(rows, p) == first_match(rows.skip(i as int), p),
            decreases db.devices.len() - i,
        {
            if db.devices[i].name == name && db.devices[i].device_type == device_type {
                proof {
                    lemma_first_match_hit(rows, p, i as int);
                }
                return Ok(Some(db.devices[i].clone()));
            }
            proof {
                lemma_first_match_skip(rows, p, i as int);
            }
            i += 1;
        }
        Ok(None)
    }

    /// Resolves the device named `name` of class `device_type`: the
    /// registered one, or one registered now with an empty notification
    /// token and no owner. On an error the registry is as it was.
    pub fn get_device(db: &mut Registry, name: String, device_type: DeviceType) -> (r: Result<
        DatabaseDevice,
        AiError,
    >)
        ensures
            match old(db)@.resolved(name@, device_type) {
                Ok((d, after)) => r matches Ok(device) && device@ == d && final(db)@ == after,
                Err(e) => r matches Err(x) && x@ == e && final(db)@ == old(db)@,
            },
            old(db)@.wf() ==> final(db)@.wf(),
    {
        proof {
            lemma_resolved(db@, name@, device_type);
        }
        let found = match DatabaseDevice::find_device(db, name.clone(), device_type) {
            Ok(found) => found,
            Err(_) => None,
        };
        match found {
            Some(device) => Ok(device),
            None => DatabaseDevice::insert_device(db, name, device_type, String::new()),
        }
    }
}

impl DatabaseUserDevice {
    /// Appends a junction row that says that `user_id` owns `device_id`.
    /// Fails, changing nothing, when the ids of the table are used up.
    pub fn insert_user_device(db: &mut Registry, user_id: u64, device_id: u64) -> (r: Result<
        (),
        AiError,
    >)
        ensures
            match r {
                Ok(_) => {
                    &&& old(db)@.user_device_seq < u64::MAX
                    &&& final(db)@ == old(db)@.with_link(user_id, device_id)
                },
                Err(e) => {
                    &&& old(db)@.user_device_seq == u64::MAX
                    &&& e@ == sequence_exhausted()
                    &&& final(db)@ == old(db)@
                },
            },
            old(db)@.ids_wf() ==> final(db)@.ids_wf(),
    {
        if db.user_device_seq == u64::MAX {
            return Err(exhausted());
        }
        proof {
            lemma_with_link_keeps_ids(db@, user_id, device_id);
        }
        let id: u64 = db.user_device_seq + 1;
        db.user_device.push(DatabaseUserDevice { id, user_id, device_id });
        db.user_device_seq = id;
        Ok(())
    }

    /// Removes every junction row with this row's id.
    pub fn delete_user_device(&self, db: &mut Registry) -> (r: Result<(), AiError>)
        ensures
            r is Ok,
            final(db)@ == (RegistryView {
                user_device: old(db)@.user_device.filter(link_without_id(self.id)),
                ..old(db)@
            }),
            old(db)@.ids_wf() ==> final(db)@.ids_wf(),
    {
        proof {
            if db@.ids_wf() {
                lemma_filter_keeps_ids(
                    db@,
                    user_without_id(self.id),
                    device_without_id(self.id),
                    link_without_id(self.id),
                );
            }
        }
        let mut kept: Vec<DatabaseUserDevice> = Vec::new();
        let ghost rows = db@.user_device;
        let ghost p = link_without_id(self.id);
        let mut i: usize = 0;
        proof {
            assert(rows.take(0) =~= Seq::empty());
            reveal(Seq::filter);
        }
        while i < db.user_device.len()
            invariant
                i <= db.user_device.len(),
                rows == db.user_device@,
                p == link_without_id(self.id),
                kept@ == rows.take(i as int).filter(p),
            decreases db.user_device.len() - i,
        {
            proof {
                lemma_take_push(rows, i as int);
                rows.take(i as int).lemma_filter_push(rows[i as int], p);
            }
            if db.user_device[i].id != self.id {
                kept.push(db.user_device[i]);
            }
            i += 1;
        }
        proof {
            assert(rows.take(i as int) =~= rows);
        }
        db.user_device = kept;
        Ok(())
    }

    /// The devices that `user_id` owns, in the order of the table of
    /// devices, each once.
    pub fn get_user_devices(db: &Registry, user_id: u64) -> (r: Result<
        Vec<DatabaseDevice>,
        AiError,
    >)
        ensures
            r matches Ok(devices) && device_views(devices@) == db@.devices_of(user_id),
    {
        let mut out: Vec<DatabaseDevice> = Vec::new();
        let ghost rows = db@.devices;
        let ghost p = owned_by(db@.user_device, user_id);
        let mut i: usize = 0;
        proof {
            assert(rows.take(0) =~= Seq::empty());
            assert(device_views(out@) =~= Seq::empty());
            reveal(Seq::filter);
        }
        while i < db.devices.len()
            invariant
                i <= db.devices.len(),
                rows == device_views(db.devices@),
                p == owned_by(db.user_device@, user_id),
                device_views(out@) == rows.take(i as int).filter(p),
            decreases db.devices.len() - i,
        {
            let ghost before = out@;
            proof {
                lemma_take_push(rows, i as int);
                rows.take(i as int).lemma_filter_push(rows[i as int], p);
            }
            if is_linked(&db.user_device, user_id, db.devices[i].id) {
                let row = db.devices[i].clone();
                out.push(row);
                proof {
                    assert(device_views(out@) =~= device_views(before).push(row@));
                }
            }
            i += 1;
        }
        proof {
            assert(rows.take(i as int) =~= rows);
        }
        Ok(out)
    }

    /// The users that own `device_id`, in the order of the table of users,
    /// each once.
    pub fn get_device_users(db: &Registry, device_id: u64) -> (r: Result<
        Vec<DatabaseUser>,
        AiError,
    >)
        ensures
            r matches Ok(users) && user_rows(users@) == db@.owners_of(device_id),
    {
        let mut out: Vec<DatabaseUser> = Vec::new();
        let ghost rows = db@.users;
        let ghost p = owner_of(db@.user_device, device_id);
        let mut i: usize = 0;
        proof {
            assert(rows.take(0) =~= Seq::empty());
            assert(user_rows(out@) =~= Seq::empty());
            reveal(Seq::filter);
        }
        while i < db.users.len()
            invariant
                i <= db.users.len(),
                rows == user_rows(db.users@),
                p == owner_of(db.user_device@, device_id),
                user_rows(out@) == rows.take(i as int).filter(p),
            decreases db.users.len() - i,
        {
            let ghost before = out@;
            proof {
                lemma_take_push(rows, i as int);
                rows.take(i as int).lemma_filter_push(rows[i as int], p);
            }
            if is_linked(&db.user_device, db.users[i].id, device_id) {
                let row = db.users[i].clone();
                out.push(row);
                proof {
                    assert(user_rows(out@) =~= user_rows(before).push(row@));
                }
            }
            i += 1;
        }
        proof {
            assert(rows.take(i as int) =~= rows);
        }
        Ok(out)
    }
}

} // verus!
