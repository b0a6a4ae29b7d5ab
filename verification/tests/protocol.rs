use http_home::device::{Device, Socket, Thermometer};
use http_home::dict::DeviceDict;
use http_home::errors::HandleRequestError;
use http_home::home::Home;
use http_home::protocol::{create_device_from, update_device};
use http_home::quantity::Real;

fn dict(pairs: &[(&str, &str)]) -> DeviceDict {
    let mut d = DeviceDict::new();
    for (k, v) in pairs {
        d.push((*k).to_owned(), (*v).to_owned());
    }
    d
}

fn num(s: &str) -> Real {
    Real::from_text(s).expect("numeric text")
}

fn socket_home() -> Home {
    let mut home = Home::new("test".to_owned());
    assert!(home.add_room("R").is_some());
    let socket = Device::Socket(Socket::new(num("220"), num("5"), false));
    assert!(home.add_device("R", "S", socket).is_some());
    home
}

fn socket_fields(home: &Home, room: &str, name: &str) -> (String, String, bool) {
    match home.get_device_by_path(room, name) {
        Some(Device::Socket(s)) => (
            s.voltage().as_text().clone(),
            s.current().as_text().clone(),
            s.is_on(),
        ),
        _ => panic!("expected a socket at {}/{}", room, name),
    }
}

#[test]
fn partial_update_touches_only_given_fields() {
    let mut home = socket_home();
    let r = update_device(&mut home, "R", "S", &dict(&[("device", "socket"), ("state", "on")]));
    assert!(r.is_ok());
    let (voltage, current, on) = socket_fields(&home, "R", "S");
    assert_eq!(voltage, "220");
    assert_eq!(current, "5");
    assert!(on);
}

#[test]
fn state_tokens_of_both_languages_switch_on() {
    let mut home = socket_home();
    assert!(update_device(&mut home, "R", "S", &dict(&[("device", "socket"), ("state", "on")]))
        .is_ok());
    assert!(socket_fields(&home, "R", "S").2);
    assert!(update_device(&mut home, "R", "S", &dict(&[("device", "socket"), ("state", "off")]))
        .is_ok());
    assert!(!socket_fields(&home, "R", "S").2);
    assert!(update_device(&mut home, "R", "S", &dict(&[("device", "socket"), ("state", "вкл")]))
        .is_ok());
    assert!(socket_fields(&home, "R", "S").2);
    assert!(update_device(&mut home, "R", "S", &dict(&[("device", "socket"), ("state", "выкл")]))
        .is_ok());
    assert!(!socket_fields(&home, "R", "S").2);
    assert!(update_device(&mut home, "R", "S", &dict(&[("device", "SOCKET"), ("state", "ВКЛ")]))
        .is_ok());
    assert!(socket_fields(&home, "R", "S").2);
}

#[test]
fn unrecognized_state_token_is_validation_failure() {
    let mut home = socket_home();
    let r = update_device(
        &mut home,
        "R",
        "S",
        &dict(&[("device", "socket"), ("state", "unplugged")]),
    );
    assert!(matches!(r, Err(HandleRequestError::BadDeviceDict(_))));
    let (voltage, current, on) = socket_fields(&home, "R", "S");
    assert_eq!((voltage.as_str(), current.as_str(), on), ("220", "5", false));
}

#[test]
fn update_against_empty_home_is_not_found() {
    let mut home = Home::new("empty".to_owned());
    let r = update_device(
        &mut home,
        "NoRoom",
        "NoDevice",
        &dict(&[("device", "socket"), ("state", "on")]),
    );
    match r {
        Err(HandleRequestError::DeviceNotFound(room, device)) => {
            assert_eq!(room, "NoRoom");
            assert_eq!(device, "NoDevice");
        }
        other => panic!("expected DeviceNotFound, got {:?}", other.is_ok()),
    }
}

#[test]
fn missing_device_key_is_validation_failure_before_lookup() {
    let mut home = Home::new("empty".to_owned());
    let r = update_device(&mut home, "NoRoom", "NoDevice", &dict(&[("state", "on")]));
    assert!(matches!(r, Err(HandleRequestError::BadDeviceDict(_))));
}

#[test]
fn kind_mismatch_is_rejected_and_thermometer_untouched() {
    let mut home = Home::new("test".to_owned());
    assert!(home.add_room("R").is_some());
    let thermometer = Device::Thermometer(Thermometer::new(num("21.5")));
    assert!(home.add_device("R", "T", thermometer).is_some());
    let r = update_device(
        &mut home,
        "R",
        "T",
        &dict(&[("device", "socket"), ("state", "on"), ("voltage", "5")]),
    );
    assert!(matches!(r, Err(HandleRequestError::BadDeviceDict(_))));
    match home.get_device_by_path("R", "T") {
        Some(Device::Thermometer(t)) => assert_eq!(t.temperature().as_text(), "21.5"),
        _ => panic!("thermometer lost"),
    }
}

#[test]
fn unparseable_number_is_parse_error_and_earlier_fields_stay_applied() {
    let mut home = socket_home();
    let r = update_device(
        &mut home,
        "R",
        "S",
        &dict(&[("device", "socket"), ("state", "on"), ("current", "abc")]),
    );
    match r {
        Err(HandleRequestError::ParseFloatError(text)) => assert_eq!(text, "abc"),
        _ => panic!("expected ParseFloatError"),
    }
    // No rollback: the state field had already been applied.
    let (voltage, current, on) = socket_fields(&home, "R", "S");
    assert_eq!((voltage.as_str(), current.as_str(), on), ("220", "5", true));
}

#[test]
fn end_to_end_update_then_remove_twice() {
    let mut home = socket_home();
    let r = update_device(&mut home, "R", "S", &dict(&[("device", "socket"), ("current", "3.2")]));
    assert!(r.is_ok());
    let (voltage, current, on) = socket_fields(&home, "R", "S");
    assert_eq!((voltage.as_str(), current.as_str(), on), ("220", "3.2", false));

    let removed = home.remove_device("R", "S").expect("first removal succeeds");
    match removed {
        Device::Socket(s) => {
            assert_eq!(s.current().as_text(), "3.2");
            assert_eq!(s.voltage().as_text(), "220");
            assert!(!s.is_on());
        }
        _ => panic!("expected the socket back"),
    }
    assert!(home.remove_device("R", "S").is_none());
}

#[test]
fn round_trip_socket_through_dictionary() {
    let device = Device::Socket(Socket::new(num("220"), num("5"), true));
    let encoded = device.to_dictionary();
    let decoded = create_device_from(&encoded).expect("decodes");
    let again = decoded.to_dictionary();
    assert_eq!(encoded.len(), again.len());
    for i in 0..encoded.len() {
        let (k1, v1) = encoded.pair_at(i);
        let (k2, v2) = again.pair_at(i);
        assert_eq!((k1, v1), (k2, v2));
    }
}

#[test]
fn round_trip_thermometer_through_dictionary() {
    let device: Device = Thermometer::new(num("-3.5e2")).into();
    let encoded = device.to_dictionary();
    let decoded = Device::from_dictionary(&encoded).expect("decodes");
    match decoded {
        Device::Thermometer(t) => assert_eq!(t.temperature().as_text(), "-3.5e2"),
        _ => panic!("kind changed in the round trip"),
    }
}

#[test]
fn create_requires_every_field_of_the_kind() {
    assert!(matches!(
        create_device_from(&dict(&[("device", "socket"), ("state", "on"), ("voltage", "220")])),
        Err(HandleRequestError::BadDeviceDict(_))
    ));
    assert!(matches!(
        create_device_from(&dict(&[("device", "socket")])),
        Err(HandleRequestError::BadDeviceDict(_))
    ));
    assert!(matches!(
        create_device_from(&dict(&[("device", "teapot")])),
        Err(HandleRequestError::BadDeviceDict(_))
    ));
    assert!(matches!(
        create_device_from(&dict(&[("device", "thermometer"), ("temperature", "cold")])),
        Err(HandleRequestError::ParseFloatError(_))
    ));
    assert!(create_device_from(&dict(&[
        ("device", "Thermometer"),
        ("temperature", "21.5"),
    ]))
    .is_ok());
}

#[test]
fn unknown_device_encodes_to_empty_dictionary_and_never_decodes() {
    let d = Device::Unknown.to_dictionary();
    assert_eq!(d.len(), 0);
    assert!(matches!(
        create_device_from(&d),
        Err(HandleRequestError::BadDeviceDict(_))
    ));
}

#[test]
fn error_messages_render_as_fixed_text() {
    let e = HandleRequestError::DeviceNotFound("R".to_owned(), "S".to_owned());
    assert_eq!(e.message(), "Device not found R/S.");
    let e = HandleRequestError::ParseFloatError("abc".to_owned());
    assert_eq!(e.message(), "Parse float error abc.");
    let e = HandleRequestError::BadDeviceDict(dict(&[("device", "socket"), ("state", "maybe")]));
    assert_eq!(e.message(), "Error in device dict device=socket state=maybe.");
}
