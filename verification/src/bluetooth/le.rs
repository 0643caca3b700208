use aes::cipher::generic_array::GenericArray;
use aes::cipher::{BlockDecrypt, BlockEncrypt, KeyInit};
use aes::Aes128;
use crate::bluetooth::aacp::BatteryStatus;
use crate::bluetooth::address::{
    address_key, address_key_spec, key_from_hex, key_of_text, key_view, parse_address,
    parse_address_spec,
};
use crate::devices::enums::DeviceType;
use std::collections::{HashMap, HashSet};
use vstd::prelude::*;
use vstd::string::StringSliceAdditionalSpecFns;
use vstd::utf8::encode_utf8;

verus! {

/// The AES-128 encryption of one 16-byte block under a 16-byte key: what
/// `encrypt_block` of the `aes` crate's `Aes128` leaves in the block.
pub uninterp spec fn aes128_encrypt_block(key: Seq<u8>, block: Seq<u8>) -> Seq<u8>;

/// The AES-128 decryption of one 16-byte block under a 16-byte key: what
/// `decrypt_block` of the `aes` crate's `Aes128` leaves in the block.
pub uninterp spec fn aes128_decrypt_block(key: Seq<u8>, block: Seq<u8>) -> Seq<u8>;

/// Runs `Aes128::new` on the key and `encrypt_block` on a copy of the block,
/// both of the `aes` crate. The contract only gives the resulting block its
/// name; nothing about the cipher itself is proved here.
#[verifier::external_body]
fn aes128_encrypt(key: &[u8; 16], block: &[u8; 16]) -> (out: [u8; 16])
    ensures
        out@ == aes128_encrypt_block(key@, block@),
{
    let cipher = Aes128::new(&GenericArray::from(*key));
    let mut buffer = GenericArray::from(*block);
    cipher.encrypt_block(&mut buffer);
    buffer.into()
}

/// Runs `Aes128::new` on the key and `decrypt_block` on a copy of the block,
/// both of the `aes` crate. The contract only gives the resulting block its
/// name; nothing about the cipher itself is proved here.
#[verifier::external_body]
fn aes128_decrypt(key: &[u8; 16], block: &[u8; 16]) -> (out: [u8; 16])
    ensures
        out@ == aes128_decrypt_block(key@, block@),
{
    let cipher = Aes128::new(&GenericArray::from(*key));
    let mut buffer = GenericArray::from(*block);
    cipher.decrypt_block(&mut buffer);
    buffer.into()
}

/// The security function `e` of the resolvable-address scheme: key and
/// plaintext are byte-reversed before the block cipher runs, and so is the
/// ciphertext after it.
pub open spec fn e_spec(key: Seq<u8>, data: Seq<u8>) -> Seq<u8> {
    aes128_encrypt_block(key.reverse(), data.reverse()).reverse()
}

/// The three-byte random part of an address, zero-extended to a block.
pub open spec fn padded_prand(r: Seq<u8>) -> Seq<u8> {
    Seq::new(16, |i: int| if i < 3 { r[i] } else { 0u8 })
}

/// The hash function `ah`: the first three bytes of `e` applied to the
/// zero-extended random part.
pub open spec fn ah_spec(k: Seq<u8>, r: Seq<u8>) -> Seq<u8> {
    e_spec(k, padded_prand(r)).subrange(0, 3)
}

/// The random part of an address given in textual octet order: its first
/// three octets, last first.
pub open spec fn prand_of(addr: Seq<u8>) -> Seq<u8> {
    seq![addr[2], addr[1], addr[0]]
}

/// The hash embedded in an address given in textual octet order: its last
/// three octets, last first.
pub open spec fn hash_of(addr: Seq<u8>) -> Seq<u8> {
    seq![addr[5], addr[4], addr[3]]
}

/// Whether the address resolves under the identity key.
pub open spec fn rpa_verifies(addr: Seq<u8>, irk: Seq<u8>) -> bool {
    ah_spec(irk, prand_of(addr)) == hash_of(addr)
}

/// A copy of the block with its bytes in the opposite order.
pub fn reversed_block(block: &[u8; 16]) -> (out: [u8; 16])
    ensures
        out@ == block@.reverse(),
{
    let mut out: [u8; 16] = [0u8; 16];
    let mut i: usize = 0;
    while i < 16
        invariant
            i <= 16,
            forall|j: int| 0 <= j < i ==> out@[j] == block@[15 - j],
        decreases 16 - i,
    {
        out[i] = block[15 - i];
        i += 1;
    }
    assert(out@ =~= block@.reverse());
    out
}

/// Encrypts one block the way the address hash needs it: with key, plaintext
/// and ciphertext each taken in reversed byte order.
pub fn e(key: &[u8; 16], data: &[u8; 16]) -> (out: [u8; 16])
    ensures
        out@ == e_spec(key@, data@),
{
    let swapped_key = reversed_block(key);
    let swapped_data = reversed_block(data);
    let cipher = aes128_encrypt(&swapped_key, &swapped_data);
    reversed_block(&cipher)
}

/// Decrypts one block with key and block in their natural byte order.
pub fn decrypt(key: &[u8; 16], data: &[u8; 16]) -> (out: [u8; 16])
    ensures
        out@ == aes128_decrypt_block(key@, data@),
{
    aes128_decrypt(key, data)
}

/// Zero-extends the random part of an address to a cipher block.
pub fn pad_prand(r: &[u8; 3]) -> (out: [u8; 16])
    ensures
        out@ == padded_prand(r@),
{
    let mut out: [u8; 16] = [0u8; 16];
    out[0] = r[0];
    out[1] = r[1];
    out[2] = r[2];
    assert(out@ =~= padded_prand(r@));
    out
}

/// The leading three bytes of an encrypted block.
pub fn truncate_hash(encrypted: &[u8; 16]) -> (out: [u8; 3])
    ensures
        out@ == encrypted@.subrange(0, 3),
{
    let out: [u8; 3] = [encrypted[0], encrypted[1], encrypted[2]];
    assert(out@ =~= encrypted@.subrange(0, 3));
    out
}

/// The address hash of a random part under an identity key.
pub fn ah(k: &[u8; 16], r: &[u8; 3]) -> (out: [u8; 3])
    ensures
        out@ == ah_spec(k@, r@),
{
    let r_padded = pad_prand(r);
    let encrypted = e(k, &r_padded);
    truncate_hash(&encrypted)
}

/// Splits an address, given in textual octet order, into its random part and
/// its embedded hash.
pub fn split_rpa(addr: &[u8; 6]) -> (parts: ([u8; 3], [u8; 3]))
    ensures
        parts.0@ == prand_of(addr@),
        parts.1@ == hash_of(addr@),
{
    let prand: [u8; 3] = [addr[2], addr[1], addr[0]];
    let hash: [u8; 3] = [addr[5], addr[4], addr[3]];
    assert(prand@ =~= prand_of(addr@));
    assert(hash@ =~= hash_of(addr@));
    (prand, hash)
}

/// Compares an embedded hash with a computed one.
pub fn hash_matches(hash: &[u8; 3], computed: &[u8; 3]) -> (same: bool)
    ensures
        same == (hash@ == computed@),
{
    let same = hash[0] == computed[0] && hash[1] == computed[1] && hash[2] == computed[2];
    proof {
        if same {
            assert(hash@ =~= computed@);
        }
    }
    same
}

/// Verifies a resolvable private address, given as six octets in textual
/// order, against an identity key.
pub fn verify_rpa_octets(addr: &[u8; 6], irk: &[u8; 16]) -> (verified: bool)
    ensures
        verified == rpa_verifies(addr@, irk@),
{
    let (prand, hash) = split_rpa(addr);
    let computed = ah(irk, &prand);
    hash_matches(&hash, &computed)
}

/// One battery as an advertisement reports it.
#[derive(Debug, Clone, Copy, PartialEq, Eq, Structural)]
pub struct LeBattery {
    /// Percentage, absent while the part is out of reach.
    pub level: Option<u8>,
    pub status: BatteryStatus,
}

/// What the decrypted block of an advertisement says about the accessory.
#[derive(Debug, Clone, Copy, PartialEq, Eq, Structural)]
pub struct LeTelemetry {
    pub left: LeBattery,
    pub right: LeBattery,
    pub case: LeBattery,
    pub left_in_ear: bool,
    pub right_in_ear: bool,
}

/// The meaning of one battery byte: `0xFF` is an absent, disconnected
/// battery; otherwise the low seven bits are the percentage and the top bit
/// is the charging flag.
pub open spec fn battery_of_byte(byte: u8) -> LeBattery {
    if byte == 0xFF {
        LeBattery { level: None, status: BatteryStatus::Disconnected }
    } else {
        LeBattery {
            level: Some((byte % 128) as u8),
            status: if byte >= 128 {
                BatteryStatus::Charging
            } else {
                BatteryStatus::NotCharging
            },
        }
    }
}

/// Bit 5 of the status byte: the left bud is the primary one.
pub open spec fn primary_left(status: u8) -> bool {
    (status / 32) % 2 == 1
}

/// Bit 6 of the status byte: the advertising bud sits in the case.
pub open spec fn this_in_case(status: u8) -> bool {
    (status / 64) % 2 == 1
}

/// Whether bytes and bits of the advertising bud belong to the left side.
pub open spec fn flip(status: u8) -> bool {
    primary_left(status) != this_in_case(status)
}

/// Bit 1 of the status byte (mask `0x02`).
pub open spec fn ear_bit_low(status: u8) -> bool {
    (status / 2) % 2 == 1
}

/// Bit 3 of the status byte (mask `0x08`).
pub open spec fn ear_bit_high(status: u8) -> bool {
    (status / 8) % 2 == 1
}

/// The telemetry that a status byte and a decrypted block stand for. With
/// `flip`, offset 1 and mask `0x02` are the left side, offset 2 and mask
/// `0x08` the right; without it the sides trade places. Offset 3 is always
/// the case.
pub open spec fn telemetry_spec(status: u8, block: Seq<u8>) -> LeTelemetry {
    if flip(status) {
        LeTelemetry {
            left: battery_of_byte(block[1]),
            right: battery_of_byte(block[2]),
            case: battery_of_byte(block[3]),
            left_in_ear: ear_bit_low(status),
            right_in_ear: ear_bit_high(status),
        }
    } else {
        LeTelemetry {
            left: battery_of_byte(block[2]),
            right: battery_of_byte(block[1]),
            case: battery_of_byte(block[3]),
            left_in_ear: ear_bit_high(status),
            right_in_ear: ear_bit_low(status),
        }
    }
}

/// The same telemetry with left and right exchanged.
pub open spec fn swap_sides(t: LeTelemetry) -> LeTelemetry {
    LeTelemetry {
        left: t.right,
        right: t.left,
        case: t.case,
        left_in_ear: t.right_in_ear,
        right_in_ear: t.left_in_ear,
    }
}

/// Decodes one battery byte of a decrypted advertisement block.
pub fn decode_battery_byte(byte: u8) -> (battery: LeBattery)
    ensures
        battery == battery_of_byte(byte),
        byte == 0xFF ==> battery.level is None && battery.status == BatteryStatus::Disconnected,
        byte != 0xFF ==> battery.level is Some && battery.status != BatteryStatus::Disconnected,
{
    if byte == 0xFF {
        LeBattery { level: None, status: BatteryStatus::Disconnected }
    } else {
        let level: u8 = byte & 0x7F;
        let charging: bool = (byte & 0x80) != 0;
        assert(byte & 0x7F == byte % 128) by (bit_vector);
        assert(((byte & 0x80) != 0) == (byte >= 128)) by (bit_vector);
        LeBattery {
            level: Some(level),
            status: if charging {
                BatteryStatus::Charging
            } else {
                BatteryStatus::NotCharging
            },
        }
    }
}

/// Decodes the status byte of an advertisement together with its decrypted
/// block.
pub fn decode_telemetry(status: u8, block: &[u8; 16]) -> (telemetry: LeTelemetry)
    ensures
        telemetry == telemetry_spec(status, block@),
{
    let is_primary_left: bool = (status >> 5) & 0x01 == 1;
    let is_in_case: bool = (status >> 6) & 0x01 == 1;
    let low: bool = (status & 0x02) != 0;
    let high: bool = (status & 0x08) != 0;
    assert(((status >> 5) & 0x01 == 1) == ((status / 32) % 2 == 1)) by (bit_vector);
    assert(((status >> 6) & 0x01 == 1) == ((status / 64) % 2 == 1)) by (bit_vector);
    assert(((status & 0x02) != 0) == ((status / 2) % 2 == 1)) by (bit_vector);
    assert(((status & 0x08) != 0) == ((status / 8) % 2 == 1)) by (bit_vector);
    let flipped: bool = is_primary_left != is_in_case;
    let first = decode_battery_byte(block[1]);
    let second = decode_battery_byte(block[2]);
    let case = decode_battery_byte(block[3]);
    if flipped {
        LeTelemetry { left: first, right: second, case, left_in_ear: low, right_in_ear: high }
    } else {
        LeTelemetry { left: second, right: first, case, left_in_ear: high, right_in_ear: low }
    }
}

/// Two status bytes that differ in `flip` and agree on both in-ear bits
/// decode the same block to telemetries that are each other's mirror image:
/// left and right trade places, the case stays.
pub proof fn lemma_flip_swaps_sides(a: u8, b: u8, block: Seq<u8>)
    requires
        flip(a) != flip(b),
        ear_bit_low(a) == ear_bit_low(b),
        ear_bit_high(a) == ear_bit_high(b),
    ensures
        telemetry_spec(b, block) == swap_sides(telemetry_spec(a, block)),
        telemetry_spec(b, block).case == telemetry_spec(a, block).case,
{
}

/// Two status bytes that agree on `flip` and on both in-ear bits decode the
/// same block to the same telemetry.
pub proof fn lemma_same_flip_same_telemetry(a: u8, b: u8, block: Seq<u8>)
    requires
        flip(a) == flip(b),
        ear_bit_low(a) == ear_bit_low(b),
        ear_bit_high(a) == ear_bit_high(b),
    ensures
        telemetry_spec(b, block) == telemetry_spec(a, block),
{
}

/// Inverting bit 5 alone, or bit 6 alone, inverts `flip` and leaves the
/// in-ear bits alone, so it mirrors the telemetry; inverting both leaves
/// `flip`, and with it the telemetry, as it was.
pub proof fn lemma_toggle_status_bits(status: u8, block: Seq<u8>)
    ensures
        telemetry_spec(status ^ 0x20, block) == swap_sides(telemetry_spec(status, block)),
        telemetry_spec(status ^ 0x40, block) == swap_sides(telemetry_spec(status, block)),
        telemetry_spec(status ^ 0x60, block) == telemetry_spec(status, block),
{
    let p: u8 = status ^ 0x20;
    let c: u8 = status ^ 0x40;
    let both: u8 = status ^ 0x60;
    assert(((p / 32) % 2 == 1) != ((status / 32) % 2 == 1) && ((p / 64) % 2 == 1) == ((status / 64)
        % 2 == 1) && ((p / 2) % 2 == 1) == ((status / 2) % 2 == 1) && ((p / 8) % 2 == 1) == ((
    status / 8) % 2 == 1)) by (bit_vector)
        requires
            p == status ^ 0x20,
    ;
    assert(((c / 32) % 2 == 1) == ((status / 32) % 2 == 1) && ((c / 64) % 2 == 1) != ((status / 64)
        % 2 == 1) && ((c / 2) % 2 == 1) == ((status / 2) % 2 == 1) && ((c / 8) % 2 == 1) == ((
    status / 8) % 2 == 1)) by (bit_vector)
        requires
            c == status ^ 0x40,
    ;
    assert(((both / 32) % 2 == 1) != ((status / 32) % 2 == 1) && ((both / 64) % 2 == 1) != ((status
        / 64) % 2 == 1) && ((both / 2) % 2 == 1) == ((status / 2) % 2 == 1) && ((both / 8) % 2
        == 1) == ((status / 8) % 2 == 1)) by (bit_vector)
        requires
            both == status ^ 0x60,
    ;
    lemma_flip_swaps_sides(status, p, block);
    lemma_flip_swaps_sides(status, c, block);
    lemma_same_flip_same_telemetry(status, both, block);
}

/// The company identifier under which the accessories advertise.
pub const APPLE_COMPANY_ID: u16 = 0x004C;

/// The bytes of a company identifier as an advertisement carries them: low
/// byte first.
pub open spec fn company_id_bytes(id: u16) -> Seq<u8> {
    seq![(id % 256) as u8, (id / 256) as u8]
}

/// The leading bytes of the manufacturer data of a company, for a monitor to
/// look for.
pub fn company_pattern(id: u16) -> (pattern: Vec<u8>)
    ensures
        pattern@ == company_id_bytes(id),
{
    let low: u8 = (id % 256) as u8;
    let high: u8 = (id / 256) as u8;
    let pattern: Vec<u8> = vec![low, high];
    assert(pattern@ =~= company_id_bytes(id));
    pattern
}

/// The status byte sits at this offset of the manufacturer payload.
pub const STATUS_OFFSET: usize = 5;

/// The connection-state byte sits at this offset of the manufacturer payload.
pub const CONNECTION_STATE_OFFSET: usize = 10;

/// A manufacturer payload shorter than this carries no telemetry.
pub const MIN_PAYLOAD_LEN: usize = 21;

/// What one manufacturer payload yields once it is decrypted.
#[derive(Debug, Clone, Copy)]
pub struct LeReport {
    /// The decrypted trailing block.
    pub decrypted: [u8; 16],
    /// The raw connection-state byte; zero means that no host is connected.
    pub connection_state: u8,
    pub telemetry: LeTelemetry,
}

/// The trailing sixteen bytes of a manufacturer payload.
pub open spec fn trailing_block(payload: Seq<u8>) -> Seq<u8> {
    payload.subrange(payload.len() - 16, payload.len() as int)
}

/// Copies the trailing sixteen bytes of a manufacturer payload.
fn last_block(payload: &[u8]) -> (out: [u8; 16])
    requires
        payload@.len() >= 16,
    ensures
        out@ == trailing_block(payload@),
{
    let mut out: [u8; 16] = [0u8; 16];
    let base: usize = payload.len() - 16;
    let mut i: usize = 0;
    while i < 16
        invariant
            i <= 16,
            base + 16 == payload@.len(),
            base + 16 <= usize::MAX,
            forall|j: int| 0 <= j < i ==> out@[j] == payload@[base + j],
        decreases 16 - i,
    {
        out[i] = payload[base + i];
        i += 1;
    }
    assert(out@ =~= trailing_block(payload@));
    out
}

/// Assembles the report of a payload from its already decrypted block. A
/// payload under the minimum length yields nothing.
pub fn report_from_block(payload: &[u8], decrypted: [u8; 16]) -> (report: Option<LeReport>)
    ensures
        payload@.len() < MIN_PAYLOAD_LEN ==> report is None,
        payload@.len() >= MIN_PAYLOAD_LEN ==> report is Some,
        report matches Some(r) ==> {
            &&& r.decrypted == decrypted
            &&& r.connection_state == payload@[CONNECTION_STATE_OFFSET as int]
            &&& r.telemetry == telemetry_spec(payload@[STATUS_OFFSET as int], decrypted@)
        },
{
    if payload.len() < MIN_PAYLOAD_LEN {
        return None;
    }
    let telemetry = decode_telemetry(payload[STATUS_OFFSET], &decrypted);
    Some(LeReport { decrypted, connection_state: payload[CONNECTION_STATE_OFFSET], telemetry })
}

/// Reads one manufacturer payload with the session key of its device: the
/// trailing block is decrypted and decoded. A payload under the minimum
/// length yields nothing.
pub fn read_manufacturer_data(payload: &[u8], enc_key: &[u8; 16]) -> (report: Option<LeReport>)
    ensures
        payload@.len() < MIN_PAYLOAD_LEN ==> report is None,
        payload@.len() >= MIN_PAYLOAD_LEN ==> report is Some,
        report matches Some(r) ==> {
            &&& r.decrypted@ == aes128_decrypt_block(enc_key@, trailing_block(payload@))
            &&& r.connection_state == payload@[CONNECTION_STATE_OFFSET as int]
            &&& r.telemetry == telemetry_spec(payload@[STATUS_OFFSET as int], r.decrypted@)
        },
{
    if payload.len() < MIN_PAYLOAD_LEN {
        return None;
    }
    let last_16 = last_block(payload);
    let decrypted = decrypt(enc_key, &last_16);
    report_from_block(payload, decrypted)
}

/// Verifies a resolvable private address, given in its textual form, against
/// an identity key. A text that is no address verifies under no key.
pub fn verify_rpa(addr: &str, irk: &[u8; 16]) -> (verified: bool)
    ensures
        verified == match parse_address_spec(addr.spec_bytes()) {
            Some(octets) => rpa_verifies(octets, irk@),
            None => false,
        },
{
    match parse_address(addr) {
        Some(octets) => verify_rpa_octets(&octets, irk),
        None => false,
    }
}

/// The keys of one device, each as a hexadecimal dump.
#[derive(Debug, Clone)]
pub struct LEData {
    /// Identity resolving key.
    pub irk: String,
    /// Session key of the advertisement payload; empty while unknown.
    pub enc_key: String,
}

/// One known device, as the registry holds it.
#[derive(Debug, Clone)]
pub struct DeviceRecord {
    pub mac: String,
    pub type_: DeviceType,
    pub le: LEData,
}

/// The identity key of a record, if its dump is one of sixteen bytes.
pub open spec fn record_irk(record: DeviceRecord) -> Option<Seq<u8>> {
    key_of_text(encode_utf8(record.le.irk@))
}

/// The session key of a record, if its dump is one of sixteen bytes.
pub open spec fn record_enc_key(record: DeviceRecord) -> Option<Seq<u8>> {
    key_of_text(encode_utf8(record.le.enc_key@))
}

/// Whether the address resolves under the identity key of the record. Only
/// AirPods records with a well-formed key can match.
pub open spec fn record_matches(addr: Seq<u8>, record: DeviceRecord) -> bool {
    record.type_ == DeviceType::AirPods && match record_irk(record) {
        Some(irk) => rpa_verifies(addr, irk),
        None => false,
    }
}

/// Whether `index` is the first record that the address matches.
pub open spec fn is_first_match(addr: Seq<u8>, records: Seq<DeviceRecord>, index: int) -> bool {
    &&& 0 <= index < records.len()
    &&& record_matches(addr, records[index])
    &&& forall|j: int| 0 <= j < index ==> !record_matches(addr, #[trigger] records[j])
}

/// Whether the address matches no record at all.
pub open spec fn matches_none(addr: Seq<u8>, records: Seq<DeviceRecord>) -> bool {
    forall|j: int| 0 <= j < records.len() ==> !record_matches(addr, #[trigger] records[j])
}

/// Whether the address resolves under the identity key of the record.
pub fn matches_record(addr: &[u8; 6], record: &DeviceRecord) -> (matched: bool)
    ensures
        matched == record_matches(addr@, *record),
{
    if record.type_ == DeviceType::AirPods {
        match key_from_hex(record.le.irk.as_str()) {
            Some(irk) => verify_rpa_octets(addr, &irk),
            None => false,
        }
    } else {
        false
    }
}

/// Finds the first record whose identity key resolves the address.
pub fn find_match(addr: &[u8; 6], records: &Vec<DeviceRecord>) -> (found: Option<usize>)
    ensures
        match found {
            Some(index) => is_first_match(addr@, records@, index as int),
            None => matches_none(addr@, records@),
        },
{
    let mut i: usize = 0;
    while i < records.len()
        invariant
            i <= records@.len(),
            forall|j: int| 0 <= j < i ==> !record_matches(addr@, #[trigger] records@[j]),
        decreases records@.len() - i,
    {
        if matches_record(addr, &records[i]) {
            return Some(i);
        }
        i += 1;
    }
    None
}

/// The session key of the record with the given address, if the registry
/// holds such a record and its key is well formed. Of several records with
/// the address the first counts.
pub open spec fn session_key_spec(records: Seq<DeviceRecord>, mac: Seq<char>) -> Option<Seq<u8>>
    decreases records.len(),
{
    if records.len() == 0 {
        None
    } else if records[0].mac@ == mac {
        record_enc_key(records[0])
    } else {
        session_key_spec(records.drop_first(), mac)
    }
}

/// Looks up the session key for a device address in the registry.
pub fn session_key(records: &Vec<DeviceRecord>, mac: &String) -> (key: Option<[u8; 16]>)
    ensures
        key_view(key) == session_key_spec(records@, mac@),
{
    let mut i: usize = 0;
    assert(records@.skip(0) =~= records@);
    while i < records.len()
        invariant
            i <= records@.len(),
            session_key_spec(records@, mac@) == session_key_spec(records@.skip(i as int), mac@),
        decreases records@.len() - i,
    {
        assert(records@.skip(i as int).drop_first() =~= records@.skip(i + 1));
        if records[i].mac == *mac {
            return key_from_hex(records[i].le.enc_key.as_str());
        }
        i += 1;
    }
    None
}

/// How the matcher disposed of one advertising address.
#[derive(Debug)]
pub enum MatchOutcome {
    /// The address was verified before; the device it belongs to.
    CacheHit(String),
    /// The address was rejected before; nothing was computed.
    NegativeCacheHit,
    /// The address resolved just now; the device it belongs to.
    Verified(String),
    /// The address resolved under no known identity key just now.
    Rejected,
}

/// The outcome of a lookup over plain values.
pub enum OutcomeView {
    CacheHit(Seq<char>),
    NegativeCacheHit,
    Verified(Seq<char>),
    Rejected,
}

impl View for MatchOutcome {
    type V = OutcomeView;

    open spec fn view(&self) -> OutcomeView {
        match self {
            MatchOutcome::CacheHit(mac) => OutcomeView::CacheHit(mac@),
            MatchOutcome::NegativeCacheHit => OutcomeView::NegativeCacheHit,
            MatchOutcome::Verified(mac) => OutcomeView::Verified(mac@),
            MatchOutcome::Rejected => OutcomeView::Rejected,
        }
    }
}

/// The two address caches of a matcher over plain values.
pub struct MatcherView {
    /// Verified addresses, each with the device it belongs to.
    pub verified: Map<u64, Seq<char>>,
    /// Addresses that resolved under no identity key.
    pub failed: Set<u64>,
}

/// One lookup: what it answers and what the caches hold afterwards. A cached
/// verdict, positive first, is answered as it stands. Otherwise the records
/// decide, and the verdict is cached under the address.
pub open spec fn match_step(
    caches: MatcherView,
    addr: Seq<u8>,
    records: Seq<DeviceRecord>,
    outcome: OutcomeView,
    after: MatcherView,
) -> bool {
    let key = address_key_spec(addr);
    if caches.verified.contains_key(key) {
        outcome == OutcomeView::CacheHit(caches.verified[key]) && after == caches
    } else if caches.failed.contains(key) {
        outcome == OutcomeView::NegativeCacheHit && after == caches
    } else if matches_none(addr, records) {
        &&& outcome == OutcomeView::Rejected
        &&& after == MatcherView { verified: caches.verified, failed: caches.failed.insert(key) }
    } else {
        exists|index: int|
            {
                &&& is_first_match(addr, records, index)
                &&& outcome == OutcomeView::Verified(#[trigger] records[index].mac@)
                &&& after == MatcherView {
                    verified: caches.verified.insert(key, records[index].mac@),
                    failed: caches.failed,
                }
            }
    }
}

/// Correlates advertising addresses with known devices, remembering each
/// verdict for as long as the matcher lives.
pub struct DeviceMatcher {
    verified: HashMap<u64, String>,
    failed: HashSet<u64>,
}

impl View for DeviceMatcher {
    type V = MatcherView;

    closed spec fn view(&self) -> MatcherView {
        MatcherView {
            verified: Map::new(
                |k: u64| self.verified@.contains_key(k),
                |k: u64| self.verified@[k]@,
            ),
            failed: self.failed@,
        }
    }
}

impl DeviceMatcher {
    /// A matcher that has seen no address yet.
    pub fn new() -> (matcher: Self)
        ensures
            matcher@.verified == Map::<u64, Seq<char>>::empty(),
            matcher@.failed == Set::<u64>::empty(),
    {
        let matcher = DeviceMatcher { verified: HashMap::new(), failed: HashSet::new() };
        assert(matcher@.verified =~= Map::<u64, Seq<char>>::empty());
        matcher
    }

    /// Looks one advertising address up: in the caches first, then, if it is
    /// new, against the identity keys of the records.
    pub fn match_address(&mut self, addr: &[u8; 6], records: &Vec<DeviceRecord>) -> (outcome:
        MatchOutcome)
        ensures
            match_step(old(self)@, addr@, records@, outcome@, final(self)@),
    {
        broadcast use vstd::std_specs::hash::group_hash_axioms;

        let key: u64 = address_key(addr);
        if let Some(mac) = self.verified.get(&key) {
            return MatchOutcome::CacheHit(mac.clone());
        }
        if self.failed.contains(&key) {
            return MatchOutcome::NegativeCacheHit;
        }
        match find_match(addr, records) {
            Some(index) => {
                let mac: String = records[index].mac.clone();
                let answer: String = mac.clone();
                self.verified.insert(key, mac);
                assert(final(self)@.verified =~= old(self)@.verified.insert(
                    key,
                    records@[index as int].mac@,
                ));
                MatchOutcome::Verified(answer)
            },
            None => {
                self.failed.insert(key);
                assert(final(self)@.verified =~= old(self)@.verified);
                MatchOutcome::Rejected
            },
        }
    }
}

/// A rejected address stays rejected: once a lookup has found no record for
/// it, every later lookup of that address is answered from the negative
/// cache, whatever records it is given, and leaves the caches alone.
pub proof fn lemma_rejected_stays_cached(
    caches: MatcherView,
    addr: Seq<u8>,
    records: Seq<DeviceRecord>,
    first: OutcomeView,
    between: MatcherView,
    later_records: Seq<DeviceRecord>,
    second: OutcomeView,
    after: MatcherView,
)
    requires
        match_step(caches, addr, records, first, between),
        first == OutcomeView::Rejected,
        match_step(between, addr, later_records, second, after),
    ensures
        second == OutcomeView::NegativeCacheHit,
        after == between,
{
}

/// A verified address stays verified: every later lookup of it is answered
/// from the cache with the same device, whatever records it is given.
pub proof fn lemma_verified_stays_cached(
    caches: MatcherView,
    addr: Seq<u8>,
    records: Seq<DeviceRecord>,
    first: OutcomeView,
    between: MatcherView,
    later_records: Seq<DeviceRecord>,
    second: OutcomeView,
    after: MatcherView,
)
    requires
        match_step(caches, addr, records, first, between),
        first matches OutcomeView::Verified(_),
        match_step(between, addr, later_records, second, after),
    ensures
        first matches OutcomeView::Verified(mac) ==> second == OutcomeView::CacheHit(mac),
        after == between,
{
}

/// A connection-state byte of zero: no host is connected to the accessory.
pub const DISCONNECTED_STATE: u8 = 0x00;

/// What to do about an accessory that advertises its connection state.
#[derive(Debug, Clone, Copy, PartialEq, Eq, Structural)]
pub enum ReconnectDecision {
    /// The accessory is connected to some host; nothing to do.
    NotNeeded,
    /// The user switched automatic connection off for this device.
    Disabled,
    /// An attempt for this address is in flight, or failed and has not been
    /// cleared yet.
    AlreadyConnecting,
    /// Start a connection attempt now.
    Connect,
}

/// The decision for one advertisement. A missing preference counts as
/// consent.
pub open spec fn reconnect_decision(
    in_flight: Set<u64>,
    connection_state: u8,
    auto_connect: Option<bool>,
    key: u64,
) -> ReconnectDecision {
    if connection_state != DISCONNECTED_STATE {
        ReconnectDecision::NotNeeded
    } else if auto_connect == Some(false) {
        ReconnectDecision::Disabled
    } else if in_flight.contains(key) {
        ReconnectDecision::AlreadyConnecting
    } else {
        ReconnectDecision::Connect
    }
}

/// The addresses in flight after a decision: a new attempt adds its address.
pub open spec fn in_flight_after_decision(
    in_flight: Set<u64>,
    decision: ReconnectDecision,
    key: u64,
) -> Set<u64> {
    if decision == ReconnectDecision::Connect {
        in_flight.insert(key)
    } else {
        in_flight
    }
}

/// The addresses in flight after an attempt has ended: success releases the
/// address, failure keeps it, so that no new attempt starts at once.
pub open spec fn in_flight_after_attempt(in_flight: Set<u64>, key: u64, connected: bool) -> Set<
    u64,
> {
    if connected {
        in_flight.remove(key)
    } else {
        in_flight
    }
}

/// The addresses to which a connection attempt is under way.
pub struct ConnectionTracker {
    in_flight: HashSet<u64>,
}

impl View for ConnectionTracker {
    type V = Set<u64>;

    closed spec fn view(&self) -> Set<u64> {
        self.in_flight@
    }
}

impl ConnectionTracker {
    /// A tracker with no attempt under way.
    pub fn new() -> (tracker: Self)
        ensures
            tracker@ == Set::<u64>::empty(),
    {
        ConnectionTracker { in_flight: HashSet::new() }
    }

    /// Decides whether to connect to the accessory behind an advertisement,
    /// and records the attempt if one is to start.
    pub fn begin_reconnect(
        &mut self,
        connection_state: u8,
        auto_connect: Option<bool>,
        addr: &[u8; 6],
    ) -> (decision: ReconnectDecision)
        ensures
            decision == reconnect_decision(
                old(self)@,
                connection_state,
                auto_connect,
                address_key_spec(addr@),
            ),
            final(self)@ == in_flight_after_decision(
                old(self)@,
                decision,
                address_key_spec(addr@),
            ),
    {
        broadcast use vstd::std_specs::hash::group_hash_axioms;

        if connection_state != DISCONNECTED_STATE {
            return ReconnectDecision::NotNeeded;
        }
        let enabled: bool = match auto_connect {
            Some(choice) => choice,
            None => true,
        };
        if !enabled {
            return ReconnectDecision::Disabled;
        }
        let key: u64 = address_key(addr);
        if self.in_flight.contains(&key) {
            return ReconnectDecision::AlreadyConnecting;
        }
        self.in_flight.insert(key);
        ReconnectDecision::Connect
    }

    /// Records how a connection attempt ended.
    pub fn finish_reconnect(&mut self, addr: &[u8; 6], connected: bool)
        ensures
            final(self)@ == in_flight_after_attempt(old(self)@, address_key_spec(addr@), connected),
    {
        broadcast use vstd::std_specs::hash::group_hash_axioms;

        if connected {
            let key: u64 = address_key(addr);
            self.in_flight.remove(&key);
        }
    }
}

/// After an attempt has started, and for as long as none has succeeded, no
/// second attempt starts for the same address.
pub proof fn lemma_failed_attempt_debounces(
    in_flight: Set<u64>,
    key: u64,
    auto_connect: Option<bool>,
    later_preference: Option<bool>,
)
    requires
        reconnect_decision(in_flight, DISCONNECTED_STATE, auto_connect, key)
            == ReconnectDecision::Connect,
    ensures
        ({
            let started = in_flight_after_decision(in_flight, ReconnectDecision::Connect, key);
            let failed = in_flight_after_attempt(started, key, false);
            &&& reconnect_decision(started, DISCONNECTED_STATE, later_preference, key)
                != ReconnectDecision::Connect
            &&& reconnect_decision(failed, DISCONNECTED_STATE, later_preference, key)
                != ReconnectDecision::Connect
        }),
{
}

/// Once an attempt has succeeded, the address is free again: the next
/// advertisement of a disconnected accessory starts a new attempt, unless
/// the user forbids it.
pub proof fn lemma_successful_attempt_releases(
    in_flight: Set<u64>,
    key: u64,
    later_preference: Option<bool>,
)
    requires
        later_preference != Some(false),
    ensures
        reconnect_decision(
            in_flight_after_attempt(in_flight.insert(key), key, true),
            DISCONNECTED_STATE,
            later_preference,
            key,
        ) == ReconnectDecision::Connect,
{
}

} // verus!
