use librepods::bluetooth::discovery::{
    any_airpods_service, classify_connection, contains_address, contains_bytes,
    is_airpods_service, is_connection_signal, is_in_lower_case, managed_addresses, names_device,
    same_bytes, ConnectionKind,
};
use librepods::bluetooth::le::{DeviceRecord, LEData};
use librepods::devices::enums::DeviceType;

const SERVICE: &str = "74ec2172-0bad-4d01-8f77-997b2be0722a";
const DEVICE_PATH: &str = "/org/bluez/hci0/dev_28_2D_7F_C2_05_5B";

fn strings(items: &[&str]) -> Vec<String> {
    items.iter().map(|s| s.to_string()).collect()
}

#[test]
fn a_part_is_found_wherever_it_stands() {
    assert!(contains_bytes(b"abcdef", b"abc"));
    assert!(contains_bytes(b"abcdef", b"cde"));
    assert!(contains_bytes(b"abcdef", b"def"));
    assert!(contains_bytes(b"abcdef", b"abcdef"));
    assert!(contains_bytes(b"aab", b"ab"));
    assert!(contains_bytes(b"abcdef", b""));
    assert!(contains_bytes(b"", b""));
}

#[test]
fn a_part_that_does_not_stand_there_is_not_found() {
    assert!(!contains_bytes(b"abcdef", b"abd"));
    assert!(!contains_bytes(b"abcdef", b"efg"));
    assert!(!contains_bytes(b"abcdef", b"abcdefg"));
    assert!(!contains_bytes(b"", b"a"));
    assert!(!contains_bytes(b"abcabc", b"cb"));
}

#[test]
fn texts_are_compared_byte_for_byte() {
    assert!(same_bytes(b"org.bluez.Device1", b"org.bluez.Device1"));
    assert!(same_bytes(b"", b""));
    assert!(!same_bytes(b"org.bluez.Device1", b"org.bluez.Device"));
    assert!(!same_bytes(b"org.bluez.Device1", b"org.bluez.device1"));
    assert!(!same_bytes(b"a", b""));
}

#[test]
fn device_paths_hold_both_markers() {
    assert!(names_device(DEVICE_PATH));
    assert!(names_device("/dev_x/org/bluez/hci"));
    assert!(!names_device("/org/bluez/hci0"));
    assert!(!names_device("/org/bluez/dev_28_2D"));
    assert!(!names_device("/org/freedesktop/dev_1"));
    assert!(!names_device(""));
}

#[test]
fn only_a_device_that_connects_is_announced() {
    assert!(is_connection_signal(DEVICE_PATH, "org.bluez.Device1", Some(1)));
    assert!(is_connection_signal(DEVICE_PATH, "org.bluez.Device1", Some(7)));
    assert!(!is_connection_signal(DEVICE_PATH, "org.bluez.Device1", Some(0)));
    assert!(!is_connection_signal(DEVICE_PATH, "org.bluez.Device1", None));
    assert!(!is_connection_signal(DEVICE_PATH, "org.bluez.MediaControl1", Some(1)));
    assert!(!is_connection_signal("/org/bluez/hci0", "org.bluez.Device1", Some(1)));
}

#[test]
fn the_service_is_named_in_either_case() {
    assert!(is_airpods_service(SERVICE));
    assert!(is_airpods_service("74EC2172-0BAD-4D01-8F77-997B2BE0722A"));
    assert!(is_airpods_service("74Ec2172-0bAd-4d01-8F77-997b2be0722a"));
    assert!(!is_airpods_service("74ec2172-0bad-4d01-8f77-997b2be0722b"));
    assert!(!is_airpods_service("74ec2172-0bad-4d01-8f77-997b2be0722"));
    assert!(!is_airpods_service("74ec2172-0bad-4d01-8f77-997b2be0722a0"));
    assert!(!is_airpods_service("0000110b-0000-1000-8000-00805f9b34fb"));
    assert!(!is_airpods_service(""));
}

#[test]
fn only_letters_are_folded() {
    assert!(is_in_lower_case(b"AZaz09", b"azaz09"));
    assert!(is_in_lower_case(b"@[`{", b"@[`{"));
    assert!(!is_in_lower_case(b"@", b"`"));
    assert!(!is_in_lower_case(b"a", b"A"));
    assert!(!is_in_lower_case(b"[", b"{"));
}

#[test]
fn services_and_addresses_are_looked_up_in_lists() {
    let uuids = strings(&["0000110b-0000-1000-8000-00805f9b34fb", &SERVICE.to_uppercase()]);
    assert!(any_airpods_service(&uuids));
    assert!(!any_airpods_service(&strings(&["0000110b-0000-1000-8000-00805f9b34fb"])));
    assert!(!any_airpods_service(&Vec::new()));
    let managed = strings(&["AA:AA", "BB:BB"]);
    assert!(contains_address(&managed, &"BB:BB".to_string()));
    assert!(!contains_address(&managed, &"bb:bb".to_string()));
    assert!(!contains_address(&Vec::new(), &"AA:AA".to_string()));
}

#[test]
fn a_managed_device_is_taken_as_such_whatever_it_offers() {
    let managed = strings(&["AA:AA"]);
    let airpods = strings(&[SERVICE]);
    let other = strings(&["0000110b-0000-1000-8000-00805f9b34fb"]);
    assert_eq!(
        classify_connection(&managed, &"AA:AA".to_string(), &airpods),
        ConnectionKind::Managed
    );
    assert_eq!(
        classify_connection(&managed, &"AA:AA".to_string(), &other),
        ConnectionKind::Managed
    );
    assert_eq!(
        classify_connection(&managed, &"CC:CC".to_string(), &airpods),
        ConnectionKind::AirPods
    );
    assert_eq!(classify_connection(&managed, &"CC:CC".to_string(), &other), ConnectionKind::Other);
    assert_eq!(
        classify_connection(&managed, &"CC:CC".to_string(), &Vec::new()),
        ConnectionKind::Other
    );
}

#[test]
fn the_managed_devices_are_those_of_the_nothing_family() {
    let record = |mac: &str, type_| DeviceRecord {
        mac: mac.to_string(),
        type_,
        le: LEData { irk: String::new(), enc_key: String::new() },
    };
    let records = vec![
        record("AA", DeviceType::Nothing),
        record("BB", DeviceType::AirPods),
        record("CC", DeviceType::Nothing),
    ];
    assert_eq!(managed_addresses(&records), strings(&["AA", "CC"]));
    assert_eq!(managed_addresses(&Vec::new()), Vec::<String>::new());
}
