//! The update protocol: validating a flat instruction dictionary against a
//! stored device and mutating it.
//!
//! An instruction set names the device kind it claims under `device`; the
//! claimed kind must match the stored device's kind.  Fields are optional
//! per update and are applied in a fixed order — state, current, voltage
//! for a socket; temperature for a thermometer.  Application is not
//! transactional: fields already applied stay applied when a later field
//! fails.  Device creation is the stricter profile over the same shape and
//! lives in `create_device_from`.

use crate::device::{
    device_valid, kind_of, spec_from_dict, token_bool, Device, DeviceKind, DeviceModel, Socket,
    SocketModel, Thermometer, ThermometerModel,
};
use crate::dict::{dict_lookup, DeviceDict};
use crate::errors::{ErrorModel, HandleRequestError};
use crate::home::{
    home_wf, lemma_rooms_absent, lemma_rooms_at, rooms_lookup, rooms_replace, Home, HomeModel,
};
use crate::quantity::{is_real_text, Real};
use crate::room::{
    assoc_lookup, assoc_replace, lemma_assoc_absent, lemma_assoc_at, room_wf, Room, RoomModel,
};
use crate::text::{eq_folded, fold_seq};
use vstd::prelude::*;

verus! {

/// Socket fields applied in protocol order: state, then current, then
/// voltage.  The first component is the socket after every field that was
/// applied before the first failure — application is not transactional.
pub open spec fn spec_apply_socket(s: SocketModel, d: Seq<(Seq<char>, Seq<char>)>) -> (
    SocketModel,
    Result<(), ErrorModel>,
) {
    let state_step = match dict_lookup(d, "state"@) {
        Option::Some(sv) => match token_bool(fold_seq(sv)) {
            Option::Some(b) => Ok(SocketModel { is_on: b, ..s }),
            Option::None => Err(()),
        },
        Option::None => Ok(s),
    };
    match state_step {
        Result::Err(_) => (s, Err(ErrorModel::BadDeviceDict { dict: d })),
        Result::Ok(s1) => {
            let current_step = match dict_lookup(d, "current"@) {
                Option::Some(ct) => if is_real_text(ct) {
                    Ok(SocketModel { current: ct, ..s1 })
                } else {
                    Err(ct)
                },
                Option::None => Ok(s1),
            };
            match current_step {
                Result::Err(ct) => (s1, Err(ErrorModel::ParseFloatError { text: ct })),
                Result::Ok(s2) => {
                    match dict_lookup(d, "voltage"@) {
                        Option::Some(vt) => if is_real_text(vt) {
                            ((SocketModel { voltage: vt, ..s2 }), Ok(()))
                        } else {
                            (s2, Err(ErrorModel::ParseFloatError { text: vt }))
                        },
                        Option::None => (s2, Ok(())),
                    }
                },
            }
        },
    }
}

/// Thermometer fields applied: temperature, when present.
pub open spec fn spec_apply_thermometer(t: ThermometerModel, d: Seq<(Seq<char>, Seq<char>)>) -> (
    ThermometerModel,
    Result<(), ErrorModel>,
) {
    match dict_lookup(d, "temperature"@) {
        Option::Some(tt) => if is_real_text(tt) {
            ((ThermometerModel { temperature: tt }), Ok(()))
        } else {
            (t, Err(ErrorModel::ParseFloatError { text: tt }))
        },
        Option::None => (t, Ok(())),
    }
}

/// One device under one instruction set, the kind claim already folded:
/// the device after the update, and the outcome.  A claim that does not
/// match the stored kind is rejected with the device untouched.
pub open spec fn spec_apply(
    m: DeviceModel,
    claimed: Seq<char>,
    d: Seq<(Seq<char>, Seq<char>)>,
) -> (DeviceModel, Result<(), ErrorModel>) {
    match m {
        DeviceModel::Socket(s) => {
            if claimed == "socket"@ {
                let step = spec_apply_socket(s, d);
                (DeviceModel::Socket(step.0), step.1)
            } else {
                (m, Err(ErrorModel::BadDeviceDict { dict: d }))
            }
        },
        DeviceModel::Thermometer(t) => {
            if claimed == "thermometer"@ {
                let step = spec_apply_thermometer(t, d);
                (DeviceModel::Thermometer(step.0), step.1)
            } else {
                (m, Err(ErrorModel::BadDeviceDict { dict: d }))
            }
        },
        DeviceModel::Unknown => (m, Err(ErrorModel::BadDeviceDict { dict: d })),
    }
}

/// The whole protocol against a home: find the claimed kind, resolve the
/// path, apply the fields.  The home after the update, and the outcome.
pub open spec fn spec_update_home(
    h: HomeModel,
    rn: Seq<char>,
    dn: Seq<char>,
    d: Seq<(Seq<char>, Seq<char>)>,
) -> (HomeModel, Result<(), ErrorModel>) {
    match dict_lookup(d, "device"@) {
        Option::None => (h, Err(ErrorModel::BadDeviceDict { dict: d })),
        Option::Some(devstr) => match rooms_lookup(h.rooms, rn) {
            Option::None => (h, Err(ErrorModel::DeviceNotFound { room: rn, device: dn })),
            Option::Some(room) => match assoc_lookup(room.devices, dn) {
                Option::None => (h, Err(ErrorModel::DeviceNotFound { room: rn, device: dn })),
                Option::Some(m) => {
                    let step = spec_apply(m, fold_seq(devstr), d);
                    (
                        HomeModel {
                            name: h.name,
                            rooms: rooms_replace(
                                h.rooms,
                                rn,
                                RoomModel {
                                    name: room.name,
                                    devices: assoc_replace(room.devices, dn, step.0),
                                },
                            ),
                        },
                        step.1,
                    )
                },
            },
        },
    }
}

/// No update can change a device's kind tag, whatever the instruction set
/// says.
pub proof fn lemma_apply_preserves_kind(
    m: DeviceModel,
    claimed: Seq<char>,
    d: Seq<(Seq<char>, Seq<char>)>,
)
    ensures
        kind_of(spec_apply(m, claimed, d).0) == kind_of(m),
{
    match m {
        DeviceModel::Socket(_) => {},
        DeviceModel::Thermometer(_) => {},
        DeviceModel::Unknown => {},
    }
}

/// Across the whole home, an update changes no room name, no device name
/// and no device kind tag — whatever the instruction set says, and whether
/// it succeeds or fails.
pub proof fn lemma_update_home_preserves_kinds(
    h: HomeModel,
    rn: Seq<char>,
    dn: Seq<char>,
    d: Seq<(Seq<char>, Seq<char>)>,
)
    ensures
        ({
            let after = spec_update_home(h, rn, dn, d).0;
            &&& after.name == h.name
            &&& after.rooms.len() == h.rooms.len()
            &&& forall|i: int|
                0 <= i < h.rooms.len() ==> (#[trigger] after.rooms[i]).name == h.rooms[i].name
            &&& forall|i: int|
                0 <= i < h.rooms.len() ==> (#[trigger] after.rooms[i]).devices.len()
                    == h.rooms[i].devices.len()
            &&& forall|i: int, j: int|
                0 <= i < h.rooms.len() && 0 <= j < h.rooms[i].devices.len() ==> (
                #[trigger] after.rooms[i].devices[j]).0 == h.rooms[i].devices[j].0 && kind_of(
                    after.rooms[i].devices[j].1,
                ) == kind_of(h.rooms[i].devices[j].1)
        }),
{
    let after = spec_update_home(h, rn, dn, d).0;
    if dict_lookup(d, "device"@) is Some && rooms_lookup(h.rooms, rn) is Some {
        let devstr = dict_lookup(d, "device"@)->0;
        let room = rooms_lookup(h.rooms, rn)->0;
        crate::home::lemma_rooms_found(h.rooms, rn);
        let ri = choose|i: int|
            0 <= i < h.rooms.len() && (#[trigger] h.rooms[i]).name == rn && (forall|j: int|
                0 <= j < i ==> (#[trigger] h.rooms[j]).name != rn);
        if assoc_lookup(room.devices, dn) is Some {
            let m = assoc_lookup(room.devices, dn)->0;
            let m2 = spec_apply(m, fold_seq(devstr), d).0;
            let room_after = RoomModel {
                name: room.name,
                devices: assoc_replace(room.devices, dn, m2),
            };
            lemma_rooms_at(h.rooms, rn, ri, room_after);
            assert(room == h.rooms[ri]);
            assert(after.rooms == h.rooms.update(ri, room_after));
            crate::room::lemma_assoc_found(room.devices, dn);
            let di = choose|i: int|
                0 <= i < room.devices.len() && (#[trigger] room.devices[i]).0 == dn && (forall|
                    j: int,
                |
                    0 <= j < i ==> (#[trigger] room.devices[j]).0 != dn);
            lemma_assoc_at(room.devices, dn, di, m2);
            assert(m == room.devices[di].1);
            assert(room_after.devices == room.devices.update(di, (room.devices[di].0, m2)));
            lemma_apply_preserves_kind(m, fold_seq(devstr), d);
        } else {
            lemma_rooms_at(h.rooms, rn, ri, room);
        }
    }
}

/// A kind claim that does not match the stored device is rejected as a
/// malformed dictionary and leaves the device exactly as it was.
pub proof fn lemma_kind_mismatch_rejected(
    m: DeviceModel,
    claimed: Seq<char>,
    d: Seq<(Seq<char>, Seq<char>)>,
)
    requires
        m is Socket ==> claimed != "socket"@,
        m is Thermometer ==> claimed != "thermometer"@,
    ensures
        spec_apply(m, claimed, d) == (m, Err::<(), ErrorModel>(
            ErrorModel::BadDeviceDict { dict: d },
        )),
{
}

/// The malformed-dictionary failure, carrying the rejected input.
pub fn bad_device_dict_error(data: &DeviceDict) -> (e: HandleRequestError)
    ensures
        e@ == (ErrorModel::BadDeviceDict { dict: data@ }),
{
    HandleRequestError::BadDeviceDict(data.clone())
}

/// Build a device from a dictionary, every field of the claimed kind
/// mandatory — the creation profile of the protocol.
pub fn create_device_from(data: &DeviceDict) -> (r: Result<Device, HandleRequestError>)
    ensures
        (match r {
            Result::Ok(dev) => Ok::<DeviceModel, ErrorModel>(dev@),
            Result::Err(e) => Err(e@),
        }) == spec_from_dict(data@),
{
    let device_string = match data.get("device") {
        Some(v) => v,
        None => {
            return Err(bad_device_dict_error(data));
        },
    };
    if eq_folded(device_string.as_str(), "socket") {
        let state = match data.get("state") {
            Some(v) => v,
            None => {
                return Err(bad_device_dict_error(data));
            },
        };
        let on = match crate::device::state_token(state.as_str()) {
            Some(b) => b,
            None => {
                return Err(bad_device_dict_error(data));
            },
        };
        let voltage_text = match data.get("voltage") {
            Some(v) => v,
            None => {
                return Err(bad_device_dict_error(data));
            },
        };
        let voltage = match Real::from_text(voltage_text.as_str()) {
            Some(v) => v,
            None => {
                return Err(HandleRequestError::ParseFloatError(voltage_text.clone()));
            },
        };
        let current_text = match data.get("current") {
            Some(v) => v,
            None => {
                return Err(bad_device_dict_error(data));
            },
        };
        let current = match Real::from_text(current_text.as_str()) {
            Some(v) => v,
            None => {
                return Err(HandleRequestError::ParseFloatError(current_text.clone()));
            },
        };
        Ok(Device::Socket(Socket::new(voltage, current, on)))
    } else if eq_folded(device_string.as_str(), "thermometer") {
        let temperature_text = match data.get("temperature") {
            Some(v) => v,
            None => {
                return Err(bad_device_dict_error(data));
            },
        };
        let temperature = match Real::from_text(temperature_text.as_str()) {
            Some(v) => v,
            None => {
                return Err(HandleRequestError::ParseFloatError(temperature_text.clone()));
            },
        };
        Ok(Device::Thermometer(Thermometer::new(temperature)))
    } else {
        Err(bad_device_dict_error(data))
    }
}

/// Apply one instruction set to one stored device, the claimed kind given
/// as the raw `device` value.  Mutates the device in place, field by field.
pub fn apply_update(device: &mut Device, device_string: &str, data: &DeviceDict) -> (r: Result<
    (),
    HandleRequestError,
>)
    requires
        device_valid(old(device)@),
    ensures
        final(device)@ == spec_apply(old(device)@, fold_seq(device_string@), data@).0,
        device_valid(final(device)@),
        (match r {
            Result::Ok(_) => Ok::<(), ErrorModel>(()),
            Result::Err(e) => Err(e@),
        }) == spec_apply(old(device)@, fold_seq(device_string@), data@).1,
{
    match device {
        Device::Socket(socket) => {
            if !eq_folded(device_string, "socket") {
                proof {
                    use_type_invariant(&*socket);
                }
                return Err(bad_device_dict_error(data));
            }
            if let Some(state) = data.get("state") {
                match crate::device::state_token(state.as_str()) {
                    Some(b) => socket.switch(b),
                    None => {
                        proof {
                            use_type_invariant(&*socket);
                        }
                        return Err(bad_device_dict_error(data));
                    },
                }
            }
            if let Some(current_text) = data.get("current") {
                match Real::from_text(current_text.as_str()) {
                    Some(c) => socket.set_current(c),
                    None => {
                        proof {
                            use_type_invariant(&*socket);
                        }
                        return Err(HandleRequestError::ParseFloatError(current_text.clone()));
                    },
                }
            }
            if let Some(voltage_text) = data.get("voltage") {
                match Real::from_text(voltage_text.as_str()) {
                    Some(v) => socket.set_voltage(v),
                    None => {
                        proof {
                            use_type_invariant(&*socket);
                        }
                        return Err(HandleRequestError::ParseFloatError(voltage_text.clone()));
                    },
                }
            }
            proof {
                use_type_invariant(&*socket);
            }
            Ok(())
        },
        Device::Thermometer(thermometer) => {
            if !eq_folded(device_string, "thermometer") {
                proof {
                    use_type_invariant(&*thermometer);
                }
                return Err(bad_device_dict_error(data));
            }
            if let Some(temperature_text) = data.get("temperature") {
                match Real::from_text(temperature_text.as_str()) {
                    Some(t) => thermometer.set_temperature(t),
                    None => {
                        proof {
                            use_type_invariant(&*thermometer);
                        }
                        return Err(HandleRequestError::ParseFloatError(temperature_text.clone()));
                    },
                }
            }
            proof {
                use_type_invariant(&*thermometer);
            }
            Ok(())
        },
        Device::Unknown => {
            proof {
                assert(false);
            }
            vstd::pervasive::unreached()
        },
    }
}

/// The whole protocol against a home: resolve the path under the home's
/// single write scope and apply the instruction set to the device there.
pub fn update_device(
    home: &mut Home,
    room_name: &str,
    device_name: &str,
    data: &DeviceDict,
) -> (r: Result<(), HandleRequestError>)
    requires
        home_wf(old(home)@),
    ensures
        home_wf(final(home)@),
        final(home)@ == spec_update_home(old(home)@, room_name@, device_name@, data@).0,
        (match r {
            Result::Ok(_) => Ok::<(), ErrorModel>(()),
            Result::Err(e) => Err(e@),
        }) == spec_update_home(old(home)@, room_name@, device_name@, data@).1,
{
    let device_string = match data.get("device") {
        Some(v) => v,
        None => {
            return Err(bad_device_dict_error(data));
        },
    };
    let ghost before = home@;
    let ri = match home.room_index(room_name) {
        Some(i) => i,
        None => {
            proof {
                lemma_rooms_absent(
                    home@.rooms,
                    room_name@,
                    RoomModel { name: room_name@, devices: Seq::empty() },
                );
            }
            return Err(
                HandleRequestError::DeviceNotFound(room_name.to_owned(), device_name.to_owned()),
            );
        },
    };
    let ghost room0 = before.rooms[ri as int];
    let room = home.room_at_mut(ri);
    let di = match room.device_index(device_name) {
        Some(i) => i,
        None => {
            proof {
                lemma_rooms_at(before.rooms, room_name@, ri as int, room0);
                lemma_assoc_absent(room0.devices, device_name@, DeviceModel::Unknown);
            }
            let e = Err(
                HandleRequestError::DeviceNotFound(room_name.to_owned(), device_name.to_owned()),
            );
            proof {
                assert(home@ =~= before);
            }
            return e;
        },
    };
    proof {
        lemma_rooms_at(before.rooms, room_name@, ri as int, room0);
        lemma_assoc_at(room0.devices, device_name@, di as int, DeviceModel::Unknown);
    }
    let ghost m0 = room0.devices[di as int].1;
    let device = room.device_at_mut(di);
    let r = apply_update(device, device_string.as_str(), data);
    let ghost m2 = spec_apply(m0, fold_seq(device_string@), data@).0;
    proof {
        let room_after = RoomModel {
            name: room0.name,
            devices: assoc_replace(room0.devices, device_name@, m2),
        };
        lemma_assoc_at(room0.devices, device_name@, di as int, m2);
        lemma_rooms_at(before.rooms, room_name@, ri as int, room_after);
        assert(home@.rooms[ri as int].devices =~= room0.devices.update(
            di as int,
            (room0.devices[di as int].0, m2),
        ));
        assert(home@.rooms[ri as int] =~= room_after);
        assert(home@.rooms =~= before.rooms.update(ri as int, room_after));
        assert(home@ =~= spec_update_home(before, room_name@, device_name@, data@).0);
        crate::room::lemma_room_wf_update(room0, room_after, di as int);
        crate::home::lemma_home_wf_update(before, home@, ri as int);
    }
    r
}

} // verus!
