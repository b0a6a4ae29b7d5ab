//! A named, ordered collection of devices, keyed by device name.
//!
//! Names are unique within a room; insertion order is kept and is the order
//! listings report.  Only devices of a known kind are ever stored.

use crate::device::{device_valid, spec_to_dict, Device, DeviceModel};
use crate::dict::pairs_text;
use vstd::prelude::*;

verus! {

/// Mathematical shape of a room.
#[verifier::ext_equal]
pub struct RoomModel {
    pub name: Seq<char>,
    pub devices: Seq<(Seq<char>, DeviceModel)>,
}

/// First entry under `name`, if any.
pub open spec fn assoc_lookup(s: Seq<(Seq<char>, DeviceModel)>, name: Seq<char>) -> Option<
    DeviceModel,
>
    decreases s.len(),
{
    if s.len() == 0 {
        None
    } else if s[0].0 == name {
        Some(s[0].1)
    } else {
        assoc_lookup(s.drop_first(), name)
    }
}

/// The sequence with the first entry under `name` removed.
pub open spec fn assoc_remove(s: Seq<(Seq<char>, DeviceModel)>, name: Seq<char>) -> Seq<
    (Seq<char>, DeviceModel),
>
    decreases s.len(),
{
    if s.len() == 0 {
        s
    } else if s[0].0 == name {
        s.drop_first()
    } else {
        seq![s[0]] + assoc_remove(s.drop_first(), name)
    }
}

/// The sequence with the first entry under `name` replaced by `m`.
pub open spec fn assoc_replace(
    s: Seq<(Seq<char>, DeviceModel)>,
    name: Seq<char>,
    m: DeviceModel,
) -> Seq<(Seq<char>, DeviceModel)>
    decreases s.len(),
{
    if s.len() == 0 {
        s
    } else if s[0].0 == name {
        seq![(s[0].0, m)] + s.drop_first()
    } else {
        seq![s[0]] + assoc_replace(s.drop_first(), name, m)
    }
}

/// No two entries share a name.
pub open spec fn unique_keys(s: Seq<(Seq<char>, DeviceModel)>) -> bool {
    forall|i: int, j: int|
        0 <= i < j < s.len() ==> (#[trigger] s[i]).0 != (#[trigger] s[j]).0
}

/// The room invariant: unique device names, every device of a known kind
/// with valid numeric fields.
pub open spec fn room_wf(m: RoomModel) -> bool {
    unique_keys(m.devices) && forall|i: int|
        0 <= i < m.devices.len() ==> device_valid((#[trigger] m.devices[i]).1)
}

/// When `name` first occurs at position `i`, lookup, removal and
/// replacement act there.
pub proof fn lemma_assoc_at(s: Seq<(Seq<char>, DeviceModel)>, name: Seq<char>, i: int, m: DeviceModel)
    requires
        0 <= i < s.len(),
        s[i].0 == name,
        forall|j: int| 0 <= j < i ==> (#[trigger] s[j]).0 != name,
    ensures
        assoc_lookup(s, name) == Some(s[i].1),
        assoc_remove(s, name) == s.remove(i),
        assoc_replace(s, name, m) == s.update(i, (s[i].0, m)),
    decreases i,
{
    if i == 0 {
        assert(assoc_remove(s, name) =~= s.remove(0));
        assert(assoc_replace(s, name, m) =~= s.update(0, (s[0].0, m)));
    } else {
        let t = s.drop_first();
        assert forall|j: int| 0 <= j < i - 1 implies (#[trigger] t[j]).0 != name by {
            assert(t[j] == s[j + 1]);
        }
        lemma_assoc_at(t, name, i - 1, m);
        assert(s[0].0 != name);
        assert(assoc_lookup(s, name) == assoc_lookup(t, name));
        assert(t[i - 1] == s[i]);
        assert(assoc_remove(s, name) =~= s.remove(i)) by {
            assert(assoc_remove(s, name) == seq![s[0]] + t.remove(i - 1));
        }
        assert(assoc_replace(s, name, m) =~= s.update(i, (s[i].0, m))) by {
            assert(assoc_replace(s, name, m) == seq![s[0]] + t.update(i - 1, (t[i - 1].0, m)));
        }
    }
}

/// A successful lookup happens at the first position that carries `name`.
pub proof fn lemma_assoc_found(s: Seq<(Seq<char>, DeviceModel)>, name: Seq<char>)
    requires
        assoc_lookup(s, name) is Some,
    ensures
        exists|i: int|
            0 <= i < s.len() && (#[trigger] s[i]).0 == name && (forall|j: int|
                0 <= j < i ==> (#[trigger] s[j]).0 != name),
    decreases s.len(),
{
    if s.len() > 0 && s[0].0 != name {
        let t = s.drop_first();
        lemma_assoc_found(t, name);
        let i = choose|i: int|
            0 <= i < t.len() && (#[trigger] t[i]).0 == name && (forall|j: int|
                0 <= j < i ==> (#[trigger] t[j]).0 != name);
        assert(s[i + 1].0 == name);
        assert forall|j: int| 0 <= j < i + 1 implies (#[trigger] s[j]).0 != name by {
            if j > 0 {
                assert(t[j - 1] == s[j]);
            }
        }
    }
}

/// When `name` occurs nowhere, lookup fails and removal and replacement
/// change nothing.
pub proof fn lemma_assoc_absent(s: Seq<(Seq<char>, DeviceModel)>, name: Seq<char>, m: DeviceModel)
    requires
        forall|j: int| 0 <= j < s.len() ==> (#[trigger] s[j]).0 != name,
    ensures
        assoc_lookup(s, name) is None,
        assoc_remove(s, name) == s,
        assoc_replace(s, name, m) == s,
    decreases s.len(),
{
    if s.len() > 0 {
        let t = s.drop_first();
        assert forall|j: int| 0 <= j < t.len() implies (#[trigger] t[j]).0 != name by {
            assert(t[j] == s[j + 1]);
        }
        lemma_assoc_absent(t, name, m);
        assert(assoc_remove(s, name) =~= s);
        assert(assoc_replace(s, name, m) =~= s);
    }
}

/// The devices of a room rendered in order: a header line with the name,
/// then the device's dictionary.
pub open spec fn devices_text(devs: Seq<(Seq<char>, DeviceModel)>) -> Seq<char>
    decreases devs.len(),
{
    if devs.len() == 0 {
        Seq::empty()
    } else {
        devices_text(devs.drop_last()) + "  Device: "@ + devs.last().0 + "\n"@ + pairs_text(
            spec_to_dict(devs.last().1),
        )
    }
}

/// One room rendered: a header line with its name, then its devices.
pub open spec fn room_text(m: RoomModel) -> Seq<char> {
    "Room: "@ + m.name + "\n"@ + devices_text(m.devices)
}

/// A room stays well formed when one device is replaced, under its own
/// name, by a valid device.
pub proof fn lemma_room_wf_update(before: RoomModel, after: RoomModel, i: int)
    requires
        room_wf(before),
        0 <= i < before.devices.len(),
        after.devices.len() == before.devices.len(),
        after.devices[i].0 == before.devices[i].0,
        device_valid(after.devices[i].1),
        forall|j: int|
            0 <= j < after.devices.len() && j != i ==> after.devices[j] == before.devices[j],
    ensures
        room_wf(after),
{
    assert forall|j: int| 0 <= j < after.devices.len() implies (#[trigger] after.devices[j]).0
        == before.devices[j].0 by {}
    assert(unique_keys(after.devices)) by {
        assert forall|a: int, b: int|
            0 <= a < b < after.devices.len() implies (#[trigger] after.devices[a]).0 != (
        #[trigger] after.devices[b]).0 by {
            assert(before.devices[a].0 != before.devices[b].0);
        }
    }
    assert forall|j: int| 0 <= j < after.devices.len() implies device_valid(
        (#[trigger] after.devices[j]).1,
    ) by {
        if j != i {
            assert(after.devices[j] == before.devices[j]);
        }
    }
}

/// A named ordered collection of devices.
pub struct Room {
    pub(crate) name: String,
    pub(crate) devices: Vec<(String, Device)>,
}

impl View for Room {
    type V = RoomModel;

    closed spec fn view(&self) -> RoomModel {
        RoomModel {
            name: self.name@,
            devices: self.devices@.map_values(|p: (String, Device)| (p.0@, p.1@)),
        }
    }
}

impl Room {
    /// An empty room under `name`.
    pub fn new(name: String) -> (r: Room)
        ensures
            r@.name == name@,
            r@.devices == Seq::<(Seq<char>, DeviceModel)>::empty(),
            room_wf(r@),
    {
        let r = Room { name, devices: Vec::new() };
        proof {
            assert(r@.devices =~= Seq::<(Seq<char>, DeviceModel)>::empty());
        }
        r
    }

    pub fn name(&self) -> (r: &String)
        ensures
            r@ == self@.name,
    {
        &self.name
    }

    /// Mutable access to the device at position `i`; the name above it and
    /// every other entry stay as they are.
    pub(crate) fn device_at_mut(&mut self, i: usize) -> (r: &mut Device)
        requires
            i < old(self)@.devices.len(),
        ensures
            (*r)@ == old(self)@.devices[i as int].1,
            final(self)@.name == old(self)@.name,
            final(self)@.devices.len() == old(self)@.devices.len(),
            forall|j: int|
                0 <= j < old(self)@.devices.len() && j != i ==> final(self)@.devices[j] == old(
                    self,
                )@.devices[j],
            final(self)@.devices[i as int].0 == old(self)@.devices[i as int].0,
            final(self)@.devices[i as int].1 == final(r)@,
    {
        let pair = &mut self.devices[i];
        &mut pair.1
    }

    /// Position of the first device under `name`, if any.
    pub fn device_index(&self, name: &str) -> (r: Option<usize>)
        ensures
            match r {
                Some(i) => i < self@.devices.len() && self@.devices[i as int].0 == name@
                    && (forall|j: int| 0 <= j < i ==> (#[trigger] self@.devices[j]).0 != name@),
                None => forall|j: int|
                    0 <= j < self@.devices.len() ==> (#[trigger] self@.devices[j]).0 != name@,
            },
    {
        let n = self.devices.len();
        let mut i: usize = 0;
        while i < n
            invariant
                0 <= i <= n,
                n == self@.devices.len(),
                n == self.devices@.len(),
                forall|j: int| 0 <= j < i ==> (#[trigger] self@.devices[j]).0 != name@,
            decreases n - i,
        {
            if crate::text::str_eq(self.devices[i].0.as_str(), name) {
                return Some(i);
            }
            i += 1;
        }
        None
    }

    /// Insert under a fresh name; fail without touching anything when the
    /// name is taken.
    pub fn add_device(&mut self, name: String, device: Device) -> (r: Option<()>)
        requires
            !(device@ is Unknown),
            room_wf(old(self)@),
        ensures
            room_wf(final(self)@),
            match r {
                Some(_) => assoc_lookup(old(self)@.devices, name@) is None && final(self)@.name
                    == old(self)@.name && final(self)@.devices == old(self)@.devices.push(
                    (name@, device@),
                ),
                None => assoc_lookup(old(self)@.devices, name@) is Some && final(self)@ == old(
                    self,
                )@,
            },
    {
        device.confirm_valid();
        match self.device_index(name.as_str()) {
            Some(i) => {
                proof {
                    lemma_assoc_at(self@.devices, name@, i as int, device@);
                }
                None
            },
            None => {
                proof {
                    lemma_assoc_absent(self@.devices, name@, device@);
                }
                let ghost before = self@.devices;
                self.devices.push((name, device));
                proof {
                    assert(self@.devices =~= before.push((name@, device@)));
                }
                Some(())
            },
        }
    }

    /// Remove and hand back the device under `name`, if present.
    pub fn remove_device(&mut self, name: &str) -> (r: Option<Device>)
        requires
            room_wf(old(self)@),
        ensures
            room_wf(final(self)@),
            match r {
                Some(d) => assoc_lookup(old(self)@.devices, name@) == Some(d@) && final(self)@.name
                    == old(self)@.name && final(self)@.devices == assoc_remove(
                    old(self)@.devices,
                    name@,
                ),
                None => assoc_lookup(old(self)@.devices, name@) is None && final(self)@ == old(
                    self,
                )@,
            },
    {
        match self.device_index(name) {
            Some(i) => {
                proof {
                    lemma_assoc_at(self@.devices, name@, i as int, DeviceModel::Unknown);
                }
                let ghost before = self@.devices;
                let pair = self.devices.remove(i);
                proof {
                    assert(self@.devices =~= before.remove(i as int));
                }
                Some(pair.1)
            },
            None => {
                proof {
                    lemma_assoc_absent(self@.devices, name@, DeviceModel::Unknown);
                }
                None
            },
        }
    }

    /// Borrow the device under `name`, if present.
    pub fn get_device(&self, name: &str) -> (r: Option<&Device>)
        ensures
            match r {
                Some(d) => assoc_lookup(self@.devices, name@) == Some(d@),
                None => assoc_lookup(self@.devices, name@) is None,
            },
    {
        match self.device_index(name) {
            Some(i) => {
                proof {
                    lemma_assoc_at(self@.devices, name@, i as int, DeviceModel::Unknown);
                }
                Some(&self.devices[i].1)
            },
            None => {
                proof {
                    lemma_assoc_absent(self@.devices, name@, DeviceModel::Unknown);
                }
                None
            },
        }
    }

    /// Render the room for the diagnostic report.
    pub fn render(&self) -> (r: String)
        ensures
            r@ == room_text(self@),
    {
        let mut r = "Room: ".to_owned();
        r.append(self.name.as_str());
        r.append("\n");
        let ghost header = r@;
        let n = self.devices.len();
        let mut i: usize = 0;
        proof {
            assert(r@ =~= header + devices_text(self@.devices.take(0)));
        }
        while i < n
            invariant
                0 <= i <= n,
                n == self.devices@.len(),
                n == self@.devices.len(),
                r@ == header + devices_text(self@.devices.take(i as int)),
            decreases n - i,
        {
            r.append("  Device: ");
            r.append(self.devices[i].0.as_str());
            r.append("\n");
            let dict = self.devices[i].1.to_dictionary();
            let body = dict.render();
            r.append(body.as_str());
            proof {
                assert(self@.devices.take(i + 1).drop_last() =~= self@.devices.take(i as int));
                assert(self@.devices.take(i + 1).last() == self@.devices[i as int]);
                assert(r@ =~= header + devices_text(self@.devices.take(i + 1)));
            }
            i += 1;
        }
        proof {
            assert(self@.devices.take(n as int) =~= self@.devices);
            assert(r@ =~= room_text(self@));
        }
        r
    }

    /// The device names, in insertion order.
    pub fn device_names(&self) -> (r: Vec<String>)
        ensures
            r@.map_values(|s: String| s@) == self@.devices.map_values(
                |p: (Seq<char>, DeviceModel)| p.0,
            ),
    {
        let n = self.devices.len();
        let mut r: Vec<String> = Vec::new();
        let mut i: usize = 0;
        while i < n
            invariant
                0 <= i <= n,
                n == self.devices@.len(),
                r@.len() == i,
                forall|j: int| 0 <= j < i ==> (#[trigger] r@[j])@ == self@.devices[j].0,
            decreases n - i,
        {
            r.push(self.devices[i].0.clone());
            i += 1;
        }
        proof {
            assert(r@.map_values(|s: String| s@) =~= self@.devices.map_values(
                |p: (Seq<char>, DeviceModel)| p.0,
            ));
        }
        r
    }
}

} // verus!
