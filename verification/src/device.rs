//! Devices: switchable power sockets and thermometers.
//!
//! A device owns its numeric state and maps both ways to a flat key/value
//! dictionary: the encoding reports its state, the decoding builds a new
//! device from a request.  `Unknown` is the sentinel for a request that
//! could not be classified; it is never stored in a room.

use crate::dict::{dict_lookup, DeviceDict};
use crate::errors::{ErrorModel, HandleRequestError};
use crate::quantity::{is_real_text, Real};
use crate::text::{eq_folded, fold_seq};
use vstd::prelude::*;

verus! {

/// Mathematical shape of a socket: two numeric field texts and a switch.
#[verifier::ext_equal]
pub struct SocketModel {
    pub voltage: Seq<char>,
    pub current: Seq<char>,
    pub is_on: bool,
}

/// Mathematical shape of a thermometer: one numeric field text.
#[verifier::ext_equal]
pub struct ThermometerModel {
    pub temperature: Seq<char>,
}

/// Mathematical shape of a device.
#[verifier::ext_equal]
pub enum DeviceModel {
    Socket(SocketModel),
    Thermometer(ThermometerModel),
    Unknown,
}

/// The kind tag of a device; updates never change it.
#[derive(Clone, Copy, PartialEq, Eq, Structural, Debug)]
pub enum DeviceKind {
    Socket,
    Thermometer,
    Unknown,
}

pub open spec fn kind_of(m: DeviceModel) -> DeviceKind {
    match m {
        DeviceModel::Socket(_) => DeviceKind::Socket,
        DeviceModel::Thermometer(_) => DeviceKind::Thermometer,
        DeviceModel::Unknown => DeviceKind::Unknown,
    }
}

/// A device that is fit to be stored: a known kind whose numeric fields
/// satisfy the grammar.
pub open spec fn device_valid(m: DeviceModel) -> bool {
    match m {
        DeviceModel::Socket(s) => is_real_text(s.voltage) && is_real_text(s.current),
        DeviceModel::Thermometer(t) => is_real_text(t.temperature),
        DeviceModel::Unknown => false,
    }
}

/// A switchable power socket.
pub struct Socket {
    voltage: Real,
    current: Real,
    is_on: bool,
}

impl View for Socket {
    type V = SocketModel;

    closed spec fn view(&self) -> SocketModel {
        SocketModel { voltage: self.voltage@, current: self.current@, is_on: self.is_on }
    }
}

impl Socket {
    /// The numeric fields of a socket always satisfy the grammar.
    #[verifier::type_invariant]
    pub open spec fn wf(self) -> bool {
        is_real_text(self@.voltage) && is_real_text(self@.current)
    }

    pub fn new(voltage: Real, current: Real, on: bool) -> (r: Socket)
        ensures
            r@ == (SocketModel { voltage: voltage@, current: current@, is_on: on }),
    {
        proof {
            use_type_invariant(&voltage);
            use_type_invariant(&current);
        }
        Socket { voltage, current, is_on: on }
    }

    /// Turn the socket on or off.
    pub fn switch(&mut self, on: bool)
        ensures
            final(self)@ == (SocketModel { is_on: on, ..old(self)@ }),
    {
        proof {
            use_type_invariant(&*self);
        }
        self.is_on = on;
    }

    /// Replace the current reading; no range clamping.
    pub fn set_current(&mut self, current: Real)
        ensures
            final(self)@ == (SocketModel { current: current@, ..old(self)@ }),
    {
        proof {
            use_type_invariant(&*self);
            use_type_invariant(&current);
        }
        self.current = current;
    }

    /// Replace the voltage reading; no range clamping.
    pub fn set_voltage(&mut self, voltage: Real)
        ensures
            final(self)@ == (SocketModel { voltage: voltage@, ..old(self)@ }),
    {
        proof {
            use_type_invariant(&*self);
            use_type_invariant(&voltage);
        }
        self.voltage = voltage;
    }

    pub fn voltage(&self) -> (r: &Real)
        ensures
            r@ == self@.voltage,
    {
        &self.voltage
    }

    pub fn current(&self) -> (r: &Real)
        ensures
            r@ == self@.current,
    {
        &self.current
    }

    pub fn is_on(&self) -> (r: bool)
        ensures
            r == self@.is_on,
    {
        self.is_on
    }
}

/// A thermometer.
pub struct Thermometer {
    temperature: Real,
}

impl View for Thermometer {
    type V = ThermometerModel;

    closed spec fn view(&self) -> ThermometerModel {
        ThermometerModel { temperature: self.temperature@ }
    }
}

impl Thermometer {
    /// The temperature text always satisfies the grammar.
    #[verifier::type_invariant]
    pub open spec fn wf(self) -> bool {
        is_real_text(self@.temperature)
    }

    pub fn new(temperature: Real) -> (r: Thermometer)
        ensures
            r@ == (ThermometerModel { temperature: temperature@ }),
    {
        proof {
            use_type_invariant(&temperature);
        }
        Thermometer { temperature }
    }

    /// Replace the temperature reading.
    pub fn set_temperature(&mut self, temperature: Real)
        ensures
            final(self)@ == (ThermometerModel { temperature: temperature@ }),
    {
        proof {
            use_type_invariant(&temperature);
        }
        self.temperature = temperature;
    }

    pub fn temperature(&self) -> (r: &Real)
        ensures
            r@ == self@.temperature,
    {
        &self.temperature
    }
}

/// One controllable or sensing unit.
pub enum Device {
    Socket(Socket),
    Thermometer(Thermometer),
    Unknown,
}

impl View for Device {
    type V = DeviceModel;

    open spec fn view(&self) -> DeviceModel {
        match self {
            Device::Socket(s) => DeviceModel::Socket(s@),
            Device::Thermometer(t) => DeviceModel::Thermometer(t@),
            Device::Unknown => DeviceModel::Unknown,
        }
    }
}

impl From<Socket> for Device {
    fn from(s: Socket) -> (r: Device) {
        Device::Socket(s)
    }
}

impl vstd::std_specs::convert::FromSpecImpl<Socket> for Device {
    open spec fn obeys_from_spec() -> bool {
        true
    }

    open spec fn from_spec(s: Socket) -> Device {
        Device::Socket(s)
    }
}

impl From<Thermometer> for Device {
    fn from(t: Thermometer) -> (r: Device) {
        Device::Thermometer(t)
    }
}

impl vstd::std_specs::convert::FromSpecImpl<Thermometer> for Device {
    open spec fn obeys_from_spec() -> bool {
        true
    }

    open spec fn from_spec(t: Thermometer) -> Device {
        Device::Thermometer(t)
    }
}

/// Accepted switch tokens, after case folding: `on`/`off` and their
/// Russian equivalents.
pub open spec fn token_bool(v: Seq<char>) -> Option<bool> {
    if v == "on"@ || v == "вкл"@ {
        Some(true)
    } else if v == "off"@ || v == "выкл"@ {
        Some(false)
    } else {
        None
    }
}

/// Map a state value to the switch position it asks for, matching tokens
/// case-insensitively; `None` for an unrecognized token.
pub fn state_token(s: &str) -> (r: Option<bool>)
    ensures
        r == token_bool(fold_seq(s@)),
{
    if eq_folded(s, "on") || eq_folded(s, "вкл") {
        Some(true)
    } else if eq_folded(s, "off") || eq_folded(s, "выкл") {
        Some(false)
    } else {
        None
    }
}

/// The dictionary a device reports: kind tag first, then its fields.
pub open spec fn spec_to_dict(m: DeviceModel) -> Seq<(Seq<char>, Seq<char>)> {
    match m {
        DeviceModel::Socket(s) => seq![
            ("device"@, "socket"@),
            ("state"@, if s.is_on { "on"@ } else { "off"@ }),
            ("voltage"@, s.voltage),
            ("current"@, s.current),
        ],
        DeviceModel::Thermometer(t) => seq![
            ("device"@, "thermometer"@),
            ("temperature"@, t.temperature),
        ],
        DeviceModel::Unknown => Seq::empty(),
    }
}

/// The device a dictionary describes, under the creation profile: every
/// field of the claimed kind is mandatory.  Checked in the order the
/// protocol fixes: kind, then state, then voltage, then current.
pub open spec fn spec_from_dict(d: Seq<(Seq<char>, Seq<char>)>) -> Result<DeviceModel, ErrorModel> {
    match dict_lookup(d, "device"@) {
        Option::None => Err(ErrorModel::BadDeviceDict { dict: d }),
        Option::Some(kind) => {
            if fold_seq(kind) == "socket"@ {
                spec_socket_from_dict(d)
            } else if fold_seq(kind) == "thermometer"@ {
                spec_thermometer_from_dict(d)
            } else {
                Err(ErrorModel::BadDeviceDict { dict: d })
            }
        },
    }
}

pub open spec fn spec_socket_from_dict(d: Seq<(Seq<char>, Seq<char>)>) -> Result<
    DeviceModel,
    ErrorModel,
> {
    match dict_lookup(d, "state"@) {
        Option::None => Err(ErrorModel::BadDeviceDict { dict: d }),
        Option::Some(state) => match token_bool(fold_seq(state)) {
            Option::None => Err(ErrorModel::BadDeviceDict { dict: d }),
            Option::Some(on) => match dict_lookup(d, "voltage"@) {
                Option::None => Err(ErrorModel::BadDeviceDict { dict: d }),
                Option::Some(voltage) => {
                    if !is_real_text(voltage) {
                        Err(ErrorModel::ParseFloatError { text: voltage })
                    } else {
                        match dict_lookup(d, "current"@) {
                            Option::None => Err(ErrorModel::BadDeviceDict { dict: d }),
                            Option::Some(current) => {
                                if !is_real_text(current) {
                                    Err(ErrorModel::ParseFloatError { text: current })
                                } else {
                                    Ok(
                                        DeviceModel::Socket(
                                            SocketModel { voltage, current, is_on: on },
                                        ),
                                    )
                                }
                            },
                        }
                    }
                },
            },
        },
    }
}

pub open spec fn spec_thermometer_from_dict(d: Seq<(Seq<char>, Seq<char>)>) -> Result<
    DeviceModel,
    ErrorModel,
> {
    match dict_lookup(d, "temperature"@) {
        Option::None => Err(ErrorModel::BadDeviceDict { dict: d }),
        Option::Some(temperature) => {
            if !is_real_text(temperature) {
                Err(ErrorModel::ParseFloatError { text: temperature })
            } else {
                Ok(DeviceModel::Thermometer(ThermometerModel { temperature }))
            }
        },
    }
}

/// Round trip: the dictionary of a valid device decodes back to an equal
/// device.  `Unknown` is excluded: it is not a valid device and encodes to
/// an empty dictionary, which every decoding rejects.
pub proof fn lemma_round_trip(m: DeviceModel)
    requires
        device_valid(m),
    ensures
        spec_from_dict(spec_to_dict(m)) == Ok::<DeviceModel, ErrorModel>(m),
{
    match m {
        DeviceModel::Socket(s) => lemma_round_trip_socket(s),
        DeviceModel::Thermometer(t) => lemma_round_trip_thermometer(t),
        DeviceModel::Unknown => {},
    }
}

#[verifier::rlimit(100)]
proof fn lemma_round_trip_socket(s: SocketModel)
    requires
        device_valid(DeviceModel::Socket(s)),
    ensures
        spec_from_dict(spec_to_dict(DeviceModel::Socket(s))) == Ok::<DeviceModel, ErrorModel>(
            DeviceModel::Socket(s),
        ),
{
    reveal_with_fuel(dict_lookup, 5);
    reveal_strlit("device");
    reveal_strlit("socket");
    reveal_strlit("state");
    reveal_strlit("on");
    reveal_strlit("off");
    reveal_strlit("voltage");
    reveal_strlit("current");
    let d = spec_to_dict(DeviceModel::Socket(s));
    assert(d.len() == 4);
    assert(d.drop_last() =~= d.take(3));
    assert(d.take(3).drop_last() =~= d.take(2));
    assert(d.take(2).drop_last() =~= d.take(1));
    assert(d.take(1).drop_last() =~= d.take(0));
    assert(d.last() == ("current"@, s.current));
    assert("current"@.len() == 7);
    assert("device"@.len() == 6);
    assert("voltage"@.len() == 7);
    assert("voltage"@[0] == 'v' && "current"@[0] == 'c');
    assert("state"@.len() == 5);
    assert(d.take(3).last() == ("voltage"@, s.voltage));
    assert(d.take(2).last() == ("state"@, if s.is_on { "on"@ } else { "off"@ }));
    assert(d.take(1).last() == ("device"@, "socket"@));
    assert(dict_lookup(d, "device"@) == Some("socket"@));
    assert(dict_lookup(d, "state"@) == Some(if s.is_on { "on"@ } else { "off"@ }));
    assert(dict_lookup(d, "voltage"@) == Some(s.voltage));
    assert(dict_lookup(d, "current"@) == Some(s.current));
    assert(fold_seq("socket"@) =~= "socket"@);
    if s.is_on {
        assert(fold_seq("on"@) =~= "on"@);
    } else {
        assert(fold_seq("off"@) =~= "off"@);
        reveal_strlit("вкл");
        assert("off"@.len() == 3 && "on"@.len() == 2);
        assert("off"@[0] == 'o' && "вкл"@[0] == 'в');
        assert("off"@ != "on"@ && "off"@ != "вкл"@);
    }
}

#[verifier::rlimit(100)]
proof fn lemma_round_trip_thermometer(t: ThermometerModel)
    requires
        device_valid(DeviceModel::Thermometer(t)),
    ensures
        spec_from_dict(spec_to_dict(DeviceModel::Thermometer(t))) == Ok::<DeviceModel, ErrorModel>(
            DeviceModel::Thermometer(t),
        ),
{
    reveal_with_fuel(dict_lookup, 3);
    reveal_strlit("device");
    reveal_strlit("socket");
    reveal_strlit("thermometer");
    reveal_strlit("temperature");
    let d = spec_to_dict(DeviceModel::Thermometer(t));
    assert(d.len() == 2);
    assert(d.drop_last() =~= d.take(1));
    assert(d.take(1).drop_last() =~= d.take(0));
    assert("temperature"@.len() == 11);
    assert("device"@.len() == 6);
    assert(d.last() == ("temperature"@, t.temperature));
    assert(d.take(1).last() == ("device"@, "thermometer"@));
    assert(dict_lookup(d, "device"@) == Some("thermometer"@));
    assert(dict_lookup(d, "temperature"@) == Some(t.temperature));
    assert(fold_seq("thermometer"@) =~= "thermometer"@);
    assert("thermometer"@ != "socket"@);
}

impl Device {
    /// A device of a known kind is valid by construction: its numeric
    /// fields live in `Real`, whose type invariant is the grammar.
    pub fn confirm_valid(&self)
        ensures
            self@ is Unknown || device_valid(self@),
    {
        match self {
            Device::Socket(s) => {
                proof {
                    use_type_invariant(s);
                }
            },
            Device::Thermometer(t) => {
                proof {
                    use_type_invariant(t);
                }
            },
            Device::Unknown => {},
        }
    }

    pub fn kind(&self) -> (r: DeviceKind)
        ensures
            r == kind_of(self@),
    {
        match self {
            Device::Socket(_) => DeviceKind::Socket,
            Device::Thermometer(_) => DeviceKind::Thermometer,
            Device::Unknown => DeviceKind::Unknown,
        }
    }

    /// The inverse of `to_dictionary`: build a device from a dictionary,
    /// every field of the claimed kind mandatory.
    pub fn from_dictionary(data: &DeviceDict) -> (r: Result<Device, HandleRequestError>)
        ensures
            (match r {
                Result::Ok(dev) => Ok::<DeviceModel, ErrorModel>(dev@),
                Result::Err(e) => Err(e@),
            }) == spec_from_dict(data@),
    {
        crate::protocol::create_device_from(data)
    }

    /// Encode the device's state as its dictionary.
    pub fn to_dictionary(&self) -> (r: DeviceDict)
        ensures
            r@ == spec_to_dict(self@),
    {
        let mut r = DeviceDict::new();
        match self {
            Device::Socket(s) => {
                r.push("device".to_owned(), "socket".to_owned());
                let state = if s.is_on() {
                    "on"
                } else {
                    "off"
                };
                r.push("state".to_owned(), state.to_owned());
                r.push("voltage".to_owned(), s.voltage().as_text().clone());
                r.push("current".to_owned(), s.current().as_text().clone());
                proof {
                    assert(r@ =~= spec_to_dict(self@));
                }
            },
            Device::Thermometer(t) => {
                r.push("device".to_owned(), "thermometer".to_owned());
                r.push("temperature".to_owned(), t.temperature().as_text().clone());
                proof {
                    assert(r@ =~= spec_to_dict(self@));
                }
            },
            Device::Unknown => {
                proof {
                    assert(r@ =~= spec_to_dict(self@));
                }
            },
        }
        r
    }
}

} // verus!
