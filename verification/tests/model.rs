use http_home::device::{Device, Socket};
use http_home::home::Home;
use http_home::quantity::Real;
use http_home::query::parse_query;
use http_home::shared::SharedHome;

fn num(s: &str) -> Real {
    Real::from_text(s).expect("numeric text")
}

#[test]
fn numeric_grammar_accepts_finite_decimals() {
    for ok in ["0", "5", "220", "3.2", "-1", "+1", ".5", "-.5", "12.", "1e5", "1E5", "1e+5",
        "-3.5e-2", "007", "21.5"] {
        assert!(Real::from_text(ok).is_some(), "{} should parse", ok);
    }
}

#[test]
fn numeric_grammar_rejects_everything_else() {
    for bad in ["", ".", "+", "-", "e5", "1e", "1e+", "abc", "1.2.3", "--1", "1.5x", "inf",
        "-inf", "NaN", "nan", "1e5e5", "1 5", " 1", "0x10"] {
        assert!(Real::from_text(bad).is_none(), "{} should be rejected", bad);
    }
}

#[test]
fn real_keeps_the_exact_text() {
    assert_eq!(num("3.20").as_text(), "3.20");
    assert_eq!(num("-0").as_text(), "-0");
}

#[test]
fn dictionary_lookup_takes_the_last_occurrence() {
    let d = parse_query("state=on&state=off");
    assert_eq!(d.get("state").unwrap(), "off");
    assert!(d.get("missing").is_none());
}

#[test]
fn query_parsing_splits_pairs_and_drops_broken_segments() {
    let d = parse_query("a=b&b=c&something_else=another-thing&notright#&blank=&ignoreme!");
    assert_eq!(d.len(), 4);
    assert_eq!(d.get("a").unwrap(), "b");
    assert_eq!(d.get("b").unwrap(), "c");
    assert_eq!(d.get("something_else").unwrap(), "another-thing");
    assert_eq!(d.get("blank").unwrap(), "");
    assert!(d.get("notright#").is_none());
    let empty = parse_query("arbitrary string");
    assert_eq!(empty.len(), 0);
    let extra = parse_query("k=v=w");
    assert_eq!(extra.get("k").unwrap(), "v");
}

#[test]
fn adding_a_duplicate_room_fails_and_keeps_the_first() {
    let mut home = Home::new("test".to_owned());
    assert!(home.add_room("R").is_some());
    let socket = Device::Socket(Socket::new(num("220"), num("5"), false));
    assert!(home.add_device("R", "S", socket).is_some());
    assert!(home.add_room("R").is_none());
    // The room kept its device: nothing was replaced by an empty room.
    assert_eq!(home.device_names_in("R").unwrap(), vec!["S".to_owned()]);
}

#[test]
fn adding_a_duplicate_device_fails_and_keeps_the_first() {
    let mut home = Home::new("test".to_owned());
    assert!(home.add_room("R").is_some());
    let first = Device::Socket(Socket::new(num("220"), num("5"), false));
    assert!(home.add_device("R", "S", first).is_some());
    let second = Device::Socket(Socket::new(num("110"), num("9"), true));
    assert!(home.add_device("R", "S", second).is_none());
    match home.get_device_by_path("R", "S") {
        Some(Device::Socket(s)) => {
            assert_eq!(s.voltage().as_text(), "220");
            assert!(!s.is_on());
        }
        _ => panic!("first socket should still be there"),
    }
}

#[test]
fn adding_a_device_to_a_missing_room_fails() {
    let mut home = Home::new("test".to_owned());
    let socket: Device = Socket::new(num("220"), num("5"), false).into();
    assert!(home.add_device("R", "S", socket).is_none());
}

#[test]
fn listings_keep_insertion_order() {
    let mut home = Home::new("test".to_owned());
    assert!(home.add_room("b").is_some());
    assert!(home.add_room("a").is_some());
    assert_eq!(home.room_names(), vec!["b".to_owned(), "a".to_owned()]);
    let d1 = Device::Socket(Socket::new(num("1"), num("1"), false));
    let d2 = Device::Socket(Socket::new(num("2"), num("2"), false));
    assert!(home.add_device("b", "z", d1).is_some());
    assert!(home.add_device("b", "y", d2).is_some());
    assert_eq!(
        home.device_names_in("b").unwrap(),
        vec!["z".to_owned(), "y".to_owned()]
    );
    assert!(home.device_names_in("c").is_none());
}

#[test]
fn removing_a_room_takes_its_devices_with_it() {
    let mut home = Home::new("test".to_owned());
    assert!(home.add_room("R").is_some());
    let socket = Device::Socket(Socket::new(num("220"), num("5"), false));
    assert!(home.add_device("R", "S", socket).is_some());
    assert!(home.remove_room("R").is_some());
    assert!(home.remove_room("R").is_none());
    assert!(home.get_device_by_path("R", "S").is_none());
}

#[test]
fn restore_seeds_one_room_with_one_socket() {
    let home = Home::restore();
    assert_eq!(home.get_name(), "Smart Home");
    assert_eq!(home.room_names(), vec!["Living room".to_owned()]);
    assert_eq!(
        home.device_names_in("Living room").unwrap(),
        vec!["socket1".to_owned()]
    );
}

#[test]
fn report_renders_the_whole_home() {
    let home = Home::restore();
    assert_eq!(
        home.report(),
        "Home: Smart Home\nRoom: Living room\n  Device: socket1\n    device=socket\n    state=off\n    voltage=220\n    current=5\n"
    );
}

#[test]
fn shared_home_serialises_a_full_session() {
    let shared = SharedHome::new(Home::restore());
    assert_eq!(shared.name(), "Smart Home");
    assert!(shared.add_room("R").is_some());
    assert!(shared.add_room("R").is_none());
    assert!(shared
        .add_device_from_query("R", "S", "device=socket&state=on&voltage=220&current=5")
        .expect("valid instruction set")
        .is_some());
    assert!(shared
        .update_from_query("R", "S", "device=socket&current=3.2")
        .is_ok());
    let d = shared.device_dictionary("R", "S").expect("device is there");
    assert_eq!(d.get("current").unwrap(), "3.2");
    assert_eq!(d.get("state").unwrap(), "on");
    let last = shared.remove_device("R", "S").expect("removal succeeds");
    assert_eq!(last.get("current").unwrap(), "3.2");
    assert!(shared.remove_device("R", "S").is_none());
    assert!(shared.remove_room("R").is_some());
    assert_eq!(shared.room_names(), vec!["Living room".to_owned()]);
    assert!(shared.report().starts_with("Home: Smart Home\n"));
    assert!(shared.device_names_in("Living room").is_some());
}
