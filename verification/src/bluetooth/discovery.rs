use crate::bluetooth::le::DeviceRecord;
use crate::devices::enums::DeviceType;
use vstd::prelude::*;
use vstd::string::StringSliceAdditionalSpecFns;
use vstd::utf8::encode_utf8;

verus! {

/// Whether `part` stands in `text` at the offset `at`.
pub open spec fn occurs_at(text: Seq<u8>, part: Seq<u8>, at: int) -> bool {
    0 <= at && at + part.len() <= text.len() && text.subrange(at, at + part.len()) == part
}

/// Whether `part` stands somewhere in `text`.
pub open spec fn has_infix(text: Seq<u8>, part: Seq<u8>) -> bool {
    exists|at: int| occurs_at(text, part, at)
}

/// Tells whether `part` stands in `text` at the offset `at`.
fn matches_at(text: &[u8], part: &[u8], at: usize) -> (same: bool)
    requires
        at + part@.len() <= text@.len(),
    ensures
        same == occurs_at(text@, part@, at as int),
{
    let len: usize = part.len();
    let total: usize = text.len();
    let ghost window = text@.subrange(at as int, at + len);
    let mut j: usize = 0;
    while j < len
        invariant
            j <= len,
            len == part@.len(),
            total == text@.len(),
            at + len <= total,
            window == text@.subrange(at as int, at + len),
            forall|k: int| 0 <= k < j ==> window[k] == part@[k],
        decreases len - j,
    {
        assert(window[j as int] == text@[at + j]);
        if text[at + j] != part[j] {
            return false;
        }
        j += 1;
    }
    assert(window =~= part@);
    true
}

/// Tells whether `part` stands somewhere in `text`.
pub fn contains_bytes(text: &[u8], part: &[u8]) -> (found: bool)
    ensures
        found == has_infix(text@, part@),
{
    if part.len() > text.len() {
        return false;
    }
    let last: usize = text.len() - part.len();
    let mut at: usize = 0;
    while at < last
        invariant
            at <= last,
            last + part@.len() == text@.len(),
            forall|k: int| 0 <= k < at ==> !occurs_at(text@, part@, k),
        decreases last - at,
    {
        if matches_at(text, part, at) {
            return true;
        }
        at += 1;
    }
    matches_at(text, part, last)
}

/// Tells whether two texts are the same, byte for byte.
pub fn same_bytes(a: &[u8], b: &[u8]) -> (same: bool)
    ensures
        same == (a@ == b@),
{
    if a.len() != b.len() {
        return false;
    }
    let mut i: usize = 0;
    while i < a.len()
        invariant
            i <= a@.len(),
            a@.len() == b@.len(),
            forall|k: int| 0 <= k < i ==> a@[k] == b@[k],
        decreases a@.len() - i,
    {
        if a[i] != b[i] {
            return false;
        }
        i += 1;
    }
    assert(a@ =~= b@);
    true
}

/// The part of an object path that every Bluetooth adapter has.
pub open spec fn adapter_marker() -> Seq<u8> {
    "/org/bluez/hci".spec_bytes()
}

/// The part of an object path that every device of an adapter has.
pub open spec fn device_marker() -> Seq<u8> {
    "/dev_".spec_bytes()
}

/// The interface whose properties say whether a device is connected.
pub open spec fn device_interface() -> Seq<u8> {
    "org.bluez.Device1".spec_bytes()
}

/// The service that AirPods-class accessories offer for the accessory
/// protocol, in lower case.
pub open spec fn airpods_service() -> Seq<u8> {
    "74ec2172-0bad-4d01-8f77-997b2be0722a".spec_bytes()
}

/// Whether an object path is that of a device of some adapter.
pub open spec fn is_device_path(path: Seq<u8>) -> bool {
    has_infix(path, adapter_marker()) && has_infix(path, device_marker())
}

/// Whether a change of properties says that a device has just connected: it
/// comes from the path of a device, speaks of the device interface, and
/// holds a connection flag that is not zero.
pub open spec fn announces_connection(path: Seq<u8>, interface: Seq<u8>, connected: Option<u64>) -> bool {
    &&& is_device_path(path)
    &&& interface == device_interface()
    &&& connected matches Some(flag) && flag != 0
}

/// Tells whether an object path is that of a device of some adapter.
pub fn names_device(path: &str) -> (named: bool)
    ensures
        named == is_device_path(path.spec_bytes()),
{
    let bytes = path.as_bytes();
    contains_bytes(bytes, "/org/bluez/hci".as_bytes()) && contains_bytes(bytes, "/dev_".as_bytes())
}

/// Tells whether a change of properties says that a device has just
/// connected.
pub fn is_connection_signal(path: &str, interface: &str, connected: Option<u64>) -> (announced: bool)
    ensures
        announced == announces_connection(
            path.spec_bytes(),
            interface.spec_bytes(),
            connected,
        ),
{
    if !names_device(path) {
        return false;
    }
    if !same_bytes(interface.as_bytes(), "org.bluez.Device1".as_bytes()) {
        return false;
    }
    match connected {
        Some(flag) => flag != 0,
        None => false,
    }
}

/// An ASCII letter in lower case; any other byte as it is.
pub open spec fn lower(byte: u8) -> u8 {
    if 0x41 <= byte <= 0x5A {
        (byte + 0x20) as u8
    } else {
        byte
    }
}

/// Whether a text names a service, whatever the case of its letters.
pub open spec fn names_service(uuid: Seq<u8>, service: Seq<u8>) -> bool {
    uuid.map_values(|byte: u8| lower(byte)) == service
}

/// Tells whether a text, brought to lower case, is the given one.
pub fn is_in_lower_case(text: &[u8], lowered: &[u8]) -> (same: bool)
    ensures
        same == names_service(text@, lowered@),
{
    let ghost mapped = text@.map_values(|byte: u8| lower(byte));
    if text.len() != lowered.len() {
        assert(mapped.len() != lowered@.len());
        return false;
    }
    let mut i: usize = 0;
    while i < text.len()
        invariant
            i <= text@.len(),
            text@.len() == lowered@.len(),
            mapped == text@.map_values(|byte: u8| lower(byte)),
            forall|k: int| 0 <= k < i ==> mapped[k] == lowered@[k],
        decreases text@.len() - i,
    {
        let byte: u8 = text[i];
        let folded: u8 = if 0x41 <= byte && byte <= 0x5A {
            byte + 0x20
        } else {
            byte
        };
        assert(mapped[i as int] == folded);
        if folded != lowered[i] {
            return false;
        }
        i += 1;
    }
    assert(mapped =~= lowered@);
    true
}

/// Tells whether a service identifier is that of the accessory protocol.
pub fn is_airpods_service(uuid: &str) -> (named: bool)
    ensures
        named == names_service(uuid.spec_bytes(), airpods_service()),
{
    is_in_lower_case(uuid.as_bytes(), "74ec2172-0bad-4d01-8f77-997b2be0722a".as_bytes())
}

/// Whether one of the service identifiers is that of the accessory protocol.
pub open spec fn offers_airpods_service(uuids: Seq<String>) -> bool {
    exists|i: int|
        0 <= i < uuids.len() && names_service(
            encode_utf8((#[trigger] uuids[i])@),
            airpods_service(),
        )
}

/// Whether a device is among the managed ones.
pub open spec fn is_managed(managed: Seq<String>, mac: Seq<char>) -> bool {
    exists|i: int| 0 <= i < managed.len() && (#[trigger] managed[i])@ == mac
}

/// What to do about a device that has just connected.
#[derive(Debug, Clone, Copy, PartialEq, Eq, Structural)]
pub enum ConnectionKind {
    /// A managed device of another family: start its session.
    Managed,
    /// An AirPods-class accessory: start its session.
    AirPods,
    /// Nothing the daemon deals with.
    Other,
}

/// The kind of a device that has just connected. A managed device is taken
/// as such whatever services it offers.
pub open spec fn connection_kind(managed: Seq<String>, mac: Seq<char>, uuids: Seq<String>) -> ConnectionKind {
    if is_managed(managed, mac) {
        ConnectionKind::Managed
    } else if offers_airpods_service(uuids) {
        ConnectionKind::AirPods
    } else {
        ConnectionKind::Other
    }
}

/// Tells whether a device is among the managed ones.
pub fn contains_address(managed: &Vec<String>, mac: &String) -> (found: bool)
    ensures
        found == is_managed(managed@, mac@),
{
    let mut i: usize = 0;
    while i < managed.len()
        invariant
            i <= managed@.len(),
            forall|k: int| 0 <= k < i ==> (#[trigger] managed@[k])@ != mac@,
        decreases managed@.len() - i,
    {
        if managed[i] == *mac {
            return true;
        }
        i += 1;
    }
    false
}

/// Tells whether one of the service identifiers is that of the accessory
/// protocol.
pub fn any_airpods_service(uuids: &Vec<String>) -> (found: bool)
    ensures
        found == offers_airpods_service(uuids@),
{
    let mut i: usize = 0;
    while i < uuids.len()
        invariant
            i <= uuids@.len(),
            forall|k: int|
                0 <= k < i ==> !names_service(
                    encode_utf8((#[trigger] uuids@[k])@),
                    airpods_service(),
                ),
        decreases uuids@.len() - i,
    {
        if is_airpods_service(uuids[i].as_str()) {
            return true;
        }
        i += 1;
    }
    false
}

/// Classifies a device that has just connected.
pub fn classify_connection(managed: &Vec<String>, mac: &String, uuids: &Vec<String>) -> (kind:
    ConnectionKind)
    ensures
        kind == connection_kind(managed@, mac@, uuids@),
{
    if contains_address(managed, mac) {
        ConnectionKind::Managed
    } else if any_airpods_service(uuids) {
        ConnectionKind::AirPods
    } else {
        ConnectionKind::Other
    }
}

/// The addresses of the managed devices of a registry: those of the Nothing
/// family. AirPods are not among them: they are found by the service they
/// offer.
pub open spec fn managed_of(records: Seq<DeviceRecord>) -> Seq<Seq<char>> {
    records.filter(|r: DeviceRecord| r.type_ == DeviceType::Nothing).map_values(
        |r: DeviceRecord| r.mac@,
    )
}

/// The addresses of a list over plain values.
pub open spec fn addresses_view(macs: Seq<String>) -> Seq<Seq<char>> {
    macs.map_values(|mac: String| mac@)
}

/// Lists the addresses of the managed devices of a registry.
pub fn managed_addresses(records: &Vec<DeviceRecord>) -> (macs: Vec<String>)
    ensures
        addresses_view(macs@) == managed_of(records@),
{
    let ghost other = |r: DeviceRecord| r.type_ == DeviceType::Nothing;
    let ghost address = |r: DeviceRecord| r.mac@;
    let mut out: Vec<String> = Vec::new();
    let mut i: usize = 0;
    proof {
        reveal(Seq::filter);
    }
    assert(records@.take(0) =~= Seq::<DeviceRecord>::empty());
    assert(addresses_view(out@) =~= records@.take(0).filter(other).map_values(address));
    while i < records.len()
        invariant
            i <= records@.len(),
            other == |r: DeviceRecord| r.type_ == DeviceType::Nothing,
            address == |r: DeviceRecord| r.mac@,
            addresses_view(out@) == records@.take(i as int).filter(other).map_values(address),
        decreases records@.len() - i,
    {
        let ghost before = out@;
        proof {
            reveal(Seq::filter);
            let shorter = records@.take(i as int);
            let longer = records@.take(i + 1);
            assert(longer.drop_last() =~= shorter);
            assert(longer.last() == records@[i as int]);
            if other(records@[i as int]) {
                assert(longer.filter(other) == shorter.filter(other).push(records@[i as int]));
                assert(longer.filter(other).map_values(address) =~= shorter.filter(
                    other,
                ).map_values(address).push(records@[i as int].mac@));
            }
        }
        if records[i].type_ == DeviceType::Nothing {
            out.push(records[i].mac.clone());
            assert(addresses_view(out@) =~= addresses_view(before).push(records@[i as int].mac@));
        }
        i += 1;
    }
    assert(records@.take(i as int) =~= records@);
    out
}

} // verus!
