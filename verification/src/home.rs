//! The aggregate root: a named, ordered collection of rooms.
//!
//! Room names are unique within a home.  All access to a device goes
//! through its `(room name, device name)` path; when either segment is
//! absent the operation reports one "not found" outcome.

use crate::device::{Device, DeviceModel, SocketModel, Socket};
use crate::quantity::Real;
use crate::room::{assoc_lookup, assoc_remove, room_text, room_wf, Room, RoomModel};
use crate::text::str_eq;
use vstd::prelude::*;

verus! {

/// Mathematical shape of a home.
#[verifier::ext_equal]
pub struct HomeModel {
    pub name: Seq<char>,
    pub rooms: Seq<RoomModel>,
}

/// First room under `name`, if any.
pub open spec fn rooms_lookup(rs: Seq<RoomModel>, name: Seq<char>) -> Option<RoomModel>
    decreases rs.len(),
{
    if rs.len() == 0 {
        None
    } else if rs[0].name == name {
        Some(rs[0])
    } else {
        rooms_lookup(rs.drop_first(), name)
    }
}

/// The rooms with the first room under `name` removed.
pub open spec fn rooms_remove(rs: Seq<RoomModel>, name: Seq<char>) -> Seq<RoomModel>
    decreases rs.len(),
{
    if rs.len() == 0 {
        rs
    } else if rs[0].name == name {
        rs.drop_first()
    } else {
        seq![rs[0]] + rooms_remove(rs.drop_first(), name)
    }
}

/// The rooms with the first room under `name` replaced by `room`.
pub open spec fn rooms_replace(rs: Seq<RoomModel>, name: Seq<char>, room: RoomModel) -> Seq<
    RoomModel,
>
    decreases rs.len(),
{
    if rs.len() == 0 {
        rs
    } else if rs[0].name == name {
        seq![room] + rs.drop_first()
    } else {
        seq![rs[0]] + rooms_replace(rs.drop_first(), name, room)
    }
}

/// No two rooms share a name.
pub open spec fn unique_room_names(rs: Seq<RoomModel>) -> bool {
    forall|i: int, j: int|
        0 <= i < j < rs.len() ==> (#[trigger] rs[i]).name != (#[trigger] rs[j]).name
}

/// The home invariant: unique room names, every room well formed.
pub open spec fn home_wf(h: HomeModel) -> bool {
    unique_room_names(h.rooms) && forall|i: int|
        0 <= i < h.rooms.len() ==> room_wf(#[trigger] h.rooms[i])
}

/// The device under a `(room, device)` path, if both segments resolve.
pub open spec fn home_device_lookup(h: HomeModel, rn: Seq<char>, dn: Seq<char>) -> Option<
    DeviceModel,
> {
    match rooms_lookup(h.rooms, rn) {
        Option::None => None,
        Option::Some(room) => assoc_lookup(room.devices, dn),
    }
}

/// Adding a device under a path: the new home, and whether it succeeded.
/// A missing room and a taken device name collapse into one failure.
pub open spec fn home_add_device(
    h: HomeModel,
    rn: Seq<char>,
    dn: Seq<char>,
    dm: DeviceModel,
) -> (HomeModel, bool) {
    match rooms_lookup(h.rooms, rn) {
        Option::None => (h, false),
        Option::Some(room) => match assoc_lookup(room.devices, dn) {
            Option::Some(_) => (h, false),
            Option::None => (
                HomeModel {
                    name: h.name,
                    rooms: rooms_replace(
                        h.rooms,
                        rn,
                        RoomModel { name: room.name, devices: room.devices.push((dn, dm)) },
                    ),
                },
                true,
            ),
        },
    }
}

/// Removing a device under a path: the new home, and the removed device.
pub open spec fn home_remove_device(h: HomeModel, rn: Seq<char>, dn: Seq<char>) -> (
    HomeModel,
    Option<DeviceModel>,
) {
    match rooms_lookup(h.rooms, rn) {
        Option::None => (h, None),
        Option::Some(room) => match assoc_lookup(room.devices, dn) {
            Option::None => (h, None),
            Option::Some(dm) => (
                HomeModel {
                    name: h.name,
                    rooms: rooms_replace(
                        h.rooms,
                        rn,
                        RoomModel { name: room.name, devices: assoc_remove(room.devices, dn) },
                    ),
                },
                Some(dm),
            ),
        },
    }
}

/// When `name` first occurs at position `i`, room lookup, removal and
/// replacement act there.
pub proof fn lemma_rooms_at(rs: Seq<RoomModel>, name: Seq<char>, i: int, room: RoomModel)
    requires
        0 <= i < rs.len(),
        rs[i].name == name,
        forall|j: int| 0 <= j < i ==> (#[trigger] rs[j]).name != name,
    ensures
        rooms_lookup(rs, name) == Some(rs[i]),
        rooms_remove(rs, name) == rs.remove(i),
        rooms_replace(rs, name, room) == rs.update(i, room),
    decreases i,
{
    if i == 0 {
        assert(rooms_remove(rs, name) =~= rs.remove(0));
        assert(rooms_replace(rs, name, room) =~= rs.update(0, room));
    } else {
        let t = rs.drop_first();
        assert forall|j: int| 0 <= j < i - 1 implies (#[trigger] t[j]).name != name by {
            assert(t[j] == rs[j + 1]);
        }
        lemma_rooms_at(t, name, i - 1, room);
        assert(t[i - 1] == rs[i]);
        assert(rooms_remove(rs, name) =~= rs.remove(i)) by {
            assert(rooms_remove(rs, name) == seq![rs[0]] + t.remove(i - 1));
        }
        assert(rooms_replace(rs, name, room) =~= rs.update(i, room)) by {
            assert(rooms_replace(rs, name, room) == seq![rs[0]] + t.update(i - 1, room));
        }
    }
}

/// A successful room lookup happens at the first position that carries
/// `name`.
pub proof fn lemma_rooms_found(rs: Seq<RoomModel>, name: Seq<char>)
    requires
        rooms_lookup(rs, name) is Some,
    ensures
        exists|i: int|
            0 <= i < rs.len() && (#[trigger] rs[i]).name == name && (forall|j: int|
                0 <= j < i ==> (#[trigger] rs[j]).name != name),
    decreases rs.len(),
{
    if rs.len() > 0 && rs[0].name != name {
        let t = rs.drop_first();
        lemma_rooms_found(t, name);
        let i = choose|i: int|
            0 <= i < t.len() && (#[trigger] t[i]).name == name && (forall|j: int|
                0 <= j < i ==> (#[trigger] t[j]).name != name);
        assert(rs[i + 1].name == name);
        assert forall|j: int| 0 <= j < i + 1 implies (#[trigger] rs[j]).name != name by {
            if j > 0 {
                assert(t[j - 1] == rs[j]);
            }
        }
    }
}

/// When no room carries `name`, lookup fails and removal and replacement
/// change nothing.
pub proof fn lemma_rooms_absent(rs: Seq<RoomModel>, name: Seq<char>, room: RoomModel)
    requires
        forall|j: int| 0 <= j < rs.len() ==> (#[trigger] rs[j]).name != name,
    ensures
        rooms_lookup(rs, name) is None,
        rooms_remove(rs, name) == rs,
        rooms_replace(rs, name, room) == rs,
    decreases rs.len(),
{
    if rs.len() > 0 {
        let t = rs.drop_first();
        assert forall|j: int| 0 <= j < t.len() implies (#[trigger] t[j]).name != name by {
            assert(t[j] == rs[j + 1]);
        }
        lemma_rooms_absent(t, name, room);
        assert(rooms_remove(rs, name) =~= rs);
        assert(rooms_replace(rs, name, room) =~= rs);
    }
}

/// The rooms of a home rendered in order.
pub open spec fn rooms_text(rs: Seq<RoomModel>) -> Seq<char>
    decreases rs.len(),
{
    if rs.len() == 0 {
        Seq::empty()
    } else {
        rooms_text(rs.drop_last()) + room_text(rs.last())
    }
}

/// The diagnostic report: a header line with the home's name, then every
/// room with its devices' dictionaries.
pub open spec fn spec_report(h: HomeModel) -> Seq<char> {
    "Home: "@ + h.name + "\n"@ + rooms_text(h.rooms)
}

/// A home stays well formed when one room is replaced by a well-formed
/// room of the same name.
pub proof fn lemma_home_wf_update(before: HomeModel, after: HomeModel, i: int)
    requires
        home_wf(before),
        0 <= i < before.rooms.len(),
        after.rooms.len() == before.rooms.len(),
        after.rooms[i].name == before.rooms[i].name,
        room_wf(after.rooms[i]),
        forall|j: int| 0 <= j < after.rooms.len() && j != i ==> after.rooms[j] == before.rooms[j],
    ensures
        home_wf(after),
{
    assert forall|j: int| 0 <= j < after.rooms.len() implies (#[trigger] after.rooms[j]).name
        == before.rooms[j].name by {}
    assert(unique_room_names(after.rooms)) by {
        assert forall|a: int, b: int|
            0 <= a < b < after.rooms.len() implies (#[trigger] after.rooms[a]).name != (
        #[trigger] after.rooms[b]).name by {
            assert(before.rooms[a].name != before.rooms[b].name);
        }
    }
    assert forall|j: int| 0 <= j < after.rooms.len() implies room_wf(#[trigger] after.rooms[j]) by {
        if j != i {
            assert(after.rooms[j] == before.rooms[j]);
        }
    }
}

/// The aggregate root.
pub struct Home {
    pub(crate) name: String,
    pub(crate) rooms: Vec<Room>,
}

impl View for Home {
    type V = HomeModel;

    closed spec fn view(&self) -> HomeModel {
        HomeModel { name: self.name@, rooms: self.rooms@.map_values(|r: Room| r@) }
    }
}

impl Home {
    /// An empty home under `name`.
    pub fn new(name: String) -> (r: Home)
        ensures
            r@.name == name@,
            r@.rooms == Seq::<RoomModel>::empty(),
            home_wf(r@),
    {
        let r = Home { name, rooms: Vec::new() };
        proof {
            assert(r@.rooms =~= Seq::<RoomModel>::empty());
        }
        r
    }

    pub fn get_name(&self) -> (r: &String)
        ensures
            r@ == self@.name,
    {
        &self.name
    }

    /// Mutable access to the room at position `i`; every other room stays
    /// as it is.
    pub(crate) fn room_at_mut(&mut self, i: usize) -> (r: &mut Room)
        requires
            i < old(self)@.rooms.len(),
        ensures
            (*r)@ == old(self)@.rooms[i as int],
            final(self)@.name == old(self)@.name,
            final(self)@.rooms.len() == old(self)@.rooms.len(),
            forall|j: int|
                0 <= j < old(self)@.rooms.len() && j != i ==> final(self)@.rooms[j] == old(
                    self,
                )@.rooms[j],
            final(self)@.rooms[i as int] == final(r)@,
    {
        &mut self.rooms[i]
    }

    /// Position of the first room under `name`, if any.
    pub fn room_index(&self, name: &str) -> (r: Option<usize>)
        ensures
            match r {
                Some(i) => i < self@.rooms.len() && self@.rooms[i as int].name == name@ && (forall|
                    j: int,
                |
                    0 <= j < i ==> (#[trigger] self@.rooms[j]).name != name@),
                None => forall|j: int|
                    0 <= j < self@.rooms.len() ==> (#[trigger] self@.rooms[j]).name != name@,
            },
    {
        let n = self.rooms.len();
        let mut i: usize = 0;
        while i < n
            invariant
                0 <= i <= n,
                n == self@.rooms.len(),
                n == self.rooms@.len(),
                forall|j: int| 0 <= j < i ==> (#[trigger] self@.rooms[j]).name != name@,
            decreases n - i,
        {
            if str_eq(self.rooms[i].name().as_str(), name) {
                return Some(i);
            }
            i += 1;
        }
        None
    }

    /// Create an empty room under a fresh name; fail without touching
    /// anything when the name is taken.
    pub fn add_room(&mut self, name: &str) -> (r: Option<()>)
        requires
            home_wf(old(self)@),
        ensures
            home_wf(final(self)@),
            match r {
                Some(_) => rooms_lookup(old(self)@.rooms, name@) is None && final(self)@.name == old(
                    self,
                )@.name && final(self)@.rooms == old(self)@.rooms.push(
                    (RoomModel { name: name@, devices: Seq::empty() }),
                ),
                None => rooms_lookup(old(self)@.rooms, name@) is Some && final(self)@ == old(
                    self,
                )@,
            },
    {
        match self.room_index(name) {
            Some(i) => {
                proof {
                    lemma_rooms_at(
                        self@.rooms,
                        name@,
                        i as int,
                        RoomModel { name: name@, devices: Seq::empty() },
                    );
                }
                None
            },
            None => {
                proof {
                    lemma_rooms_absent(
                        self@.rooms,
                        name@,
                        RoomModel { name: name@, devices: Seq::empty() },
                    );
                }
                let room = Room::new(name.to_owned());
                let ghost before = self@.rooms;
                self.rooms.push(room);
                proof {
                    assert(self@.rooms =~= before.push(
                        (RoomModel { name: name@, devices: Seq::empty() }),
                    ));
                }
                Some(())
            },
        }
    }

    /// Remove and hand back the room under `name`, if present.
    pub fn remove_room(&mut self, name: &str) -> (r: Option<Room>)
        requires
            home_wf(old(self)@),
        ensures
            home_wf(final(self)@),
            match r {
                Some(room) => rooms_lookup(old(self)@.rooms, name@) == Some(room@)
                    && final(self)@.name == old(self)@.name && final(self)@.rooms == rooms_remove(
                    old(self)@.rooms,
                    name@,
                ),
                None => rooms_lookup(old(self)@.rooms, name@) is None && final(self)@ == old(
                    self,
                )@,
            },
    {
        match self.room_index(name) {
            Some(i) => {
                proof {
                    lemma_rooms_at(
                        self@.rooms,
                        name@,
                        i as int,
                        RoomModel { name: name@, devices: Seq::empty() },
                    );
                }
                let ghost before = self@.rooms;
                let room = self.rooms.remove(i);
                proof {
                    assert(self@.rooms =~= before.remove(i as int));
                }
                Some(room)
            },
            None => {
                proof {
                    lemma_rooms_absent(
                        self@.rooms,
                        name@,
                        RoomModel { name: name@, devices: Seq::empty() },
                    );
                }
                None
            },
        }
    }

    /// Add a device under `(room_name, device_name)`.  Fails, leaving the
    /// home untouched, when the room is absent or the device name is taken;
    /// the two causes collapse into the one `None` outcome.
    pub fn add_device(&mut self, room_name: &str, device_name: &str, device: Device) -> (r: Option<
        (),
    >)
        requires
            home_wf(old(self)@),
            !(device@ is Unknown),
        ensures
            home_wf(final(self)@),
            final(self)@ == home_add_device(old(self)@, room_name@, device_name@, device@).0,
            r is Some == home_add_device(old(self)@, room_name@, device_name@, device@).1,
    {
        match self.room_index(room_name) {
            Some(i) => {
                let ghost before = self@;
                let ghost old_room = self@.rooms[i as int];
                let room = &mut self.rooms[i];
                let res = room.add_device(device_name.to_owned(), device);
                proof {
                    lemma_rooms_at(before.rooms, room_name@, i as int, room@);
                    assert(self@.rooms =~= before.rooms.update(i as int, room@));
                }
                match res {
                    Some(_) => {
                        proof {
                            lemma_home_wf_update(before, self@, i as int);
                        }
                        Some(())
                    },
                    None => {
                        proof {
                            assert(self@ =~= before);
                        }
                        None
                    },
                }
            },
            None => {
                proof {
                    lemma_rooms_absent(
                        self@.rooms,
                        room_name@,
                        RoomModel { name: room_name@, devices: Seq::empty() },
                    );
                }
                None
            },
        }
    }

    /// Remove and hand back the device under `(room_name, device_name)`;
    /// the absence of either segment is the one `None` outcome.
    pub fn remove_device(&mut self, room_name: &str, device_name: &str) -> (r: Option<Device>)
        requires
            home_wf(old(self)@),
        ensures
            home_wf(final(self)@),
            final(self)@ == home_remove_device(old(self)@, room_name@, device_name@).0,
            match r {
                Some(d) => home_remove_device(old(self)@, room_name@, device_name@).1 == Some(d@),
                None => home_remove_device(old(self)@, room_name@, device_name@).1 is None,
            },
    {
        match self.room_index(room_name) {
            Some(i) => {
                let ghost before = self@;
                let room = &mut self.rooms[i];
                let res = room.remove_device(device_name);
                proof {
                    lemma_rooms_at(before.rooms, room_name@, i as int, room@);
                    assert(self@.rooms =~= before.rooms.update(i as int, room@));
                }
                match res {
                    Some(d) => {
                        proof {
                            lemma_home_wf_update(before, self@, i as int);
                        }
                        Some(d)
                    },
                    None => {
                        proof {
                            assert(self@ =~= before);
                        }
                        None
                    },
                }
            },
            None => {
                proof {
                    lemma_rooms_absent(
                        self@.rooms,
                        room_name@,
                        RoomModel { name: room_name@, devices: Seq::empty() },
                    );
                }
                None
            },
        }
    }

    /// Borrow the device under `(room_name, device_name)`, if present.
    pub fn get_device_by_path(&self, room_name: &str, device_name: &str) -> (r: Option<&Device>)
        ensures
            match r {
                Some(d) => home_device_lookup(self@, room_name@, device_name@) == Some(d@),
                None => home_device_lookup(self@, room_name@, device_name@) is None,
            },
    {
        match self.room_index(room_name) {
            Some(i) => {
                proof {
                    lemma_rooms_at(
                        self@.rooms,
                        room_name@,
                        i as int,
                        RoomModel { name: room_name@, devices: Seq::empty() },
                    );
                }
                self.rooms[i].get_device(device_name)
            },
            None => {
                proof {
                    lemma_rooms_absent(
                        self@.rooms,
                        room_name@,
                        RoomModel { name: room_name@, devices: Seq::empty() },
                    );
                }
                None
            },
        }
    }

    /// The room names, in insertion order.
    pub fn room_names(&self) -> (r: Vec<String>)
        ensures
            r@.map_values(|s: String| s@) == self@.rooms.map_values(|m: RoomModel| m.name),
    {
        let n = self.rooms.len();
        let mut r: Vec<String> = Vec::new();
        let mut i: usize = 0;
        while i < n
            invariant
                0 <= i <= n,
                n == self.rooms@.len(),
                r@.len() == i,
                forall|j: int| 0 <= j < i ==> (#[trigger] r@[j])@ == self@.rooms[j].name,
            decreases n - i,
        {
            r.push(self.rooms[i].name().clone());
            i += 1;
        }
        proof {
            assert(r@.map_values(|s: String| s@) =~= self@.rooms.map_values(
                |m: RoomModel| m.name,
            ));
        }
        r
    }

    /// The device names of the room under `room_name`, in insertion order;
    /// `None` when the room is absent.
    pub fn device_names_in(&self, room_name: &str) -> (r: Option<Vec<String>>)
        ensures
            match r {
                Some(v) => rooms_lookup(self@.rooms, room_name@) is Some && v@.map_values(
                    |s: String| s@,
                ) == rooms_lookup(self@.rooms, room_name@)->0.devices.map_values(
                    |p: (Seq<char>, DeviceModel)| p.0,
                ),
                None => rooms_lookup(self@.rooms, room_name@) is None,
            },
    {
        match self.room_index(room_name) {
            Some(i) => {
                proof {
                    lemma_rooms_at(
                        self@.rooms,
                        room_name@,
                        i as int,
                        RoomModel { name: room_name@, devices: Seq::empty() },
                    );
                }
                Some(self.rooms[i].device_names())
            },
            None => {
                proof {
                    lemma_rooms_absent(
                        self@.rooms,
                        room_name@,
                        RoomModel { name: room_name@, devices: Seq::empty() },
                    );
                }
                None
            },
        }
    }

    /// Render every room and its devices' dictionaries — a diagnostic
    /// snapshot, nothing more.
    pub fn report(&self) -> (r: String)
        ensures
            r@ == spec_report(self@),
    {
        let mut r = "Home: ".to_owned();
        r.append(self.name.as_str());
        r.append("\n");
        let ghost header = r@;
        let n = self.rooms.len();
        let mut i: usize = 0;
        proof {
            assert(r@ =~= header + rooms_text(self@.rooms.take(0)));
        }
        while i < n
            invariant
                0 <= i <= n,
                n == self.rooms@.len(),
                n == self@.rooms.len(),
                r@ == header + rooms_text(self@.rooms.take(i as int)),
            decreases n - i,
        {
            let body = self.rooms[i].render();
            r.append(body.as_str());
            proof {
                assert(self@.rooms.take(i + 1).drop_last() =~= self@.rooms.take(i as int));
                assert(self@.rooms.take(i + 1).last() == self@.rooms[i as int]);
                assert(r@ =~= header + rooms_text(self@.rooms.take(i + 1)));
            }
            i += 1;
        }
        proof {
            assert(self@.rooms.take(n as int) =~= self@.rooms);
            assert(r@ =~= spec_report(self@));
        }
        r
    }

    /// The home a fresh process starts from: one room with one socket,
    /// switched off at 220 volts and 5 amperes.
    pub fn restore() -> (r: Home)
        ensures
            home_wf(r@),
            r@.name == "Smart Home"@,
            r@.rooms.len() == 1,
            r@.rooms[0].name == "Living room"@,
            r@.rooms[0].devices == seq![
                (
                    "socket1"@,
                    DeviceModel::Socket(
                        SocketModel { voltage: "220"@, current: "5"@, is_on: false },
                    ),
                ),
            ],
    {
        let mut home = Home::new("Smart Home".to_owned());
        let added_room = home.add_room("Living room");
        proof {
            assert(added_room is Some);
        }
        proof {
            reveal_strlit("220");
            reveal_strlit("5");
            assert(crate::quantity::is_real_text("220"@)) by {
                let t = crate::quantity::strip_sign("220"@);
                assert(t =~= "220"@);
                assert(crate::quantity::is_digit(t[0]));
            }
            assert(crate::quantity::is_real_text("5"@)) by {
                let t = crate::quantity::strip_sign("5"@);
                assert(t =~= "5"@);
                assert(crate::quantity::is_digit(t[0]));
            }
        }
        let voltage = match Real::from_text("220") {
            Some(v) => v,
            None => vstd::pervasive::unreached(),
        };
        let current = match Real::from_text("5") {
            Some(v) => v,
            None => vstd::pervasive::unreached(),
        };
        let socket = Device::Socket(Socket::new(voltage, current, false));
        let added_device = home.add_device("Living room", "socket1", socket);
        proof {
            assert(added_device is Some);
            assert(home@.rooms[0].devices =~= seq![
                (
                    "socket1"@,
                    DeviceModel::Socket(
                        SocketModel { voltage: "220"@, current: "5"@, is_on: false },
                    ),
                ),
            ]);
        }
        home
    }
}

} // verus!
