use vstd::prelude::*;
use vstd::slice::{slice_subrange, slice_to_vec};
use vstd::string::StringSliceAdditionalSpecFns;

verus! {

/// The role of a packet on the wire.
#[derive(Debug, Clone, Copy, PartialEq, Eq, Hash, Structural)]
pub enum Opcode {
    Handshake,
    BatteryInfo,
    EarDetection,
    ControlCommand,
    AddPeerDevice,
    RequestNotifications,
    MediaInformation,
    OwnershipRequest,
    Rename,
    VendorInit,
    ConnectedDevices,
    ProximityKeysRequest,
    ProximityKeysResponse,
    ConversationalAwareness,
    SetFeatureFlags,
}

impl Opcode {
    /// The byte that stands for the opcode on the wire.
    pub open spec fn to_byte_spec(self) -> u8 {
        match self {
            Opcode::Handshake => 0x01,
            Opcode::BatteryInfo => 0x04,
            Opcode::EarDetection => 0x06,
            Opcode::ControlCommand => 0x09,
            Opcode::AddPeerDevice => 0x0C,
            Opcode::RequestNotifications => 0x0F,
            Opcode::MediaInformation => 0x10,
            Opcode::OwnershipRequest => 0x11,
            Opcode::Rename => 0x1A,
            Opcode::VendorInit => 0x29,
            Opcode::ConnectedDevices => 0x2E,
            Opcode::ProximityKeysRequest => 0x30,
            Opcode::ProximityKeysResponse => 0x31,
            Opcode::ConversationalAwareness => 0x4B,
            Opcode::SetFeatureFlags => 0x4D,
        }
    }

    /// The opcode that a byte stands for, if any.
    pub open spec fn from_byte_spec(byte: u8) -> Option<Opcode> {
        if byte == 0x01 {
            Some(Opcode::Handshake)
        } else if byte == 0x04 {
            Some(Opcode::BatteryInfo)
        } else if byte == 0x06 {
            Some(Opcode::EarDetection)
        } else if byte == 0x09 {
            Some(Opcode::ControlCommand)
        } else if byte == 0x0C {
            Some(Opcode::AddPeerDevice)
        } else if byte == 0x0F {
            Some(Opcode::RequestNotifications)
        } else if byte == 0x10 {
            Some(Opcode::MediaInformation)
        } else if byte == 0x11 {
            Some(Opcode::OwnershipRequest)
        } else if byte == 0x1A {
            Some(Opcode::Rename)
        } else if byte == 0x29 {
            Some(Opcode::VendorInit)
        } else if byte == 0x2E {
            Some(Opcode::ConnectedDevices)
        } else if byte == 0x30 {
            Some(Opcode::ProximityKeysRequest)
        } else if byte == 0x31 {
            Some(Opcode::ProximityKeysResponse)
        } else if byte == 0x4B {
            Some(Opcode::ConversationalAwareness)
        } else if byte == 0x4D {
            Some(Opcode::SetFeatureFlags)
        } else {
            None
        }
    }

    pub fn to_byte(&self) -> (byte: u8)
        ensures
            byte == self.to_byte_spec(),
    {
        match self {
            Opcode::Handshake => 0x01,
            Opcode::BatteryInfo => 0x04,
            Opcode::EarDetection => 0x06,
            Opcode::ControlCommand => 0x09,
            Opcode::AddPeerDevice => 0x0C,
            Opcode::RequestNotifications => 0x0F,
            Opcode::MediaInformation => 0x10,
            Opcode::OwnershipRequest => 0x11,
            Opcode::Rename => 0x1A,
            Opcode::VendorInit => 0x29,
            Opcode::ConnectedDevices => 0x2E,
            Opcode::ProximityKeysRequest => 0x30,
            Opcode::ProximityKeysResponse => 0x31,
            Opcode::ConversationalAwareness => 0x4B,
            Opcode::SetFeatureFlags => 0x4D,
        }
    }

    pub fn from_byte(byte: u8) -> (opcode: Option<Opcode>)
        ensures
            opcode == Self::from_byte_spec(byte),
    {
        match byte {
            0x01 => Some(Opcode::Handshake),
            0x04 => Some(Opcode::BatteryInfo),
            0x06 => Some(Opcode::EarDetection),
            0x09 => Some(Opcode::ControlCommand),
            0x0C => Some(Opcode::AddPeerDevice),
            0x0F => Some(Opcode::RequestNotifications),
            0x10 => Some(Opcode::MediaInformation),
            0x11 => Some(Opcode::OwnershipRequest),
            0x1A => Some(Opcode::Rename),
            0x29 => Some(Opcode::VendorInit),
            0x2E => Some(Opcode::ConnectedDevices),
            0x30 => Some(Opcode::ProximityKeysRequest),
            0x31 => Some(Opcode::ProximityKeysResponse),
            0x4B => Some(Opcode::ConversationalAwareness),
            0x4D => Some(Opcode::SetFeatureFlags),
            _ => None,
        }
    }
}

/// A byte is the byte of an opcode exactly when it decodes to that opcode.
pub proof fn lemma_opcode_bytes(opcode: Opcode, byte: u8)
    ensures
        Opcode::from_byte_spec(opcode.to_byte_spec()) == Some(opcode),
        Opcode::from_byte_spec(byte) == Some(opcode) <==> byte == opcode.to_byte_spec(),
{
}

/// Why bytes are no packet, or a payload is not what its opcode promises.
#[derive(Debug, Clone, Copy, PartialEq, Eq, Structural)]
pub enum FormatError {
    /// The bytes end before the frame, or the payload before its fields, does.
    Truncated,
    /// Bytes follow the end of the frame or of the last field.
    TrailingBytes,
    /// The first byte of the frame is no opcode.
    UnknownOpcode,
    /// The payload is longer than the length field can say.
    PayloadTooLong,
    /// A field holds a value that its type does not have.
    Malformed,
}

/// One message of the accessory protocol.
#[derive(Debug)]
pub struct AacpPacket {
    pub identifier: Opcode,
    pub payload: Vec<u8>,
}

/// A packet over plain values.
pub struct PacketView {
    pub identifier: Opcode,
    pub payload: Seq<u8>,
}

impl View for AacpPacket {
    type V = PacketView;

    open spec fn view(&self) -> PacketView {
        PacketView { identifier: self.identifier, payload: self.payload@ }
    }
}

/// A frame starts with the opcode and the two bytes of the payload's length.
pub const HEADER_LEN: usize = 3;

/// The longest payload that the length field can describe.
pub const MAX_PAYLOAD_LEN: usize = 0xFFFF;

/// The frame of a packet: the opcode byte, the length of the payload as two
/// bytes, low byte first, and the payload.
pub open spec fn frame_spec(identifier: Opcode, payload: Seq<u8>) -> Seq<u8> {
    seq![identifier.to_byte_spec(), (payload.len() % 256) as u8, (payload.len() / 256) as u8]
        + payload
}

/// What encoding yields: the frame, unless the payload is too long for one.
pub open spec fn encode_spec(identifier: Opcode, payload: Seq<u8>) -> Result<Seq<u8>, FormatError> {
    if payload.len() > MAX_PAYLOAD_LEN {
        Err(FormatError::PayloadTooLong)
    } else {
        Ok(frame_spec(identifier, payload))
    }
}

/// The length that the header of a frame declares.
pub open spec fn declared_len(bytes: Seq<u8>) -> int {
    bytes[1] as int + bytes[2] as int * 256
}

/// What decoding yields: the packet whose frame the bytes are, or the reason
/// why they are no frame.
pub open spec fn decode_spec(bytes: Seq<u8>) -> Result<PacketView, FormatError> {
    if bytes.len() < HEADER_LEN {
        Err(FormatError::Truncated)
    } else {
        match Opcode::from_byte_spec(bytes[0]) {
            None => Err(FormatError::UnknownOpcode),
            Some(identifier) => if bytes.len() - HEADER_LEN < declared_len(bytes) {
                Err(FormatError::Truncated)
            } else if bytes.len() - HEADER_LEN > declared_len(bytes) {
                Err(FormatError::TrailingBytes)
            } else {
                Ok(
                    PacketView {
                        identifier,
                        payload: bytes.subrange(HEADER_LEN as int, bytes.len() as int),
                    },
                )
            },
        }
    }
}

/// The bytes of an encoding result.
pub open spec fn bytes_result_view(result: Result<Vec<u8>, FormatError>) -> Result<
    Seq<u8>,
    FormatError,
> {
    match result {
        Ok(bytes) => Ok(bytes@),
        Err(error) => Err(error),
    }
}

/// The packet of a decoding result.
pub open spec fn packet_result_view(result: Result<AacpPacket, FormatError>) -> Result<
    PacketView,
    FormatError,
> {
    match result {
        Ok(packet) => Ok(packet@),
        Err(error) => Err(error),
    }
}

/// Appends the bytes to the buffer.
pub fn append_bytes(out: &mut Vec<u8>, bytes: &[u8])
    ensures
        final(out)@ == old(out)@ + bytes@,
{
    let mut i: usize = 0;
    while i < bytes.len()
        invariant
            i <= bytes@.len(),
            out@ == old(out)@ + bytes@.subrange(0, i as int),
        decreases bytes@.len() - i,
    {
        out.push(bytes[i]);
        assert(bytes@.subrange(0, i + 1) =~= bytes@.subrange(0, i as int).push(bytes@[i as int]));
        i += 1;
    }
    assert(bytes@.subrange(0, i as int) =~= bytes@);
}

/// Frames a payload under an opcode.
pub fn encode(identifier: Opcode, payload: &[u8]) -> (frame: Result<Vec<u8>, FormatError>)
    ensures
        bytes_result_view(frame) == encode_spec(identifier, payload@),
{
    if payload.len() > MAX_PAYLOAD_LEN {
        return Err(FormatError::PayloadTooLong);
    }
    Ok(frame(identifier, payload))
}

/// Parses one complete frame. The caller hands in exactly the bytes of one
/// frame: a shorter slice is truncated, a longer one has trailing bytes.
pub fn decode(bytes: &[u8]) -> (packet: Result<AacpPacket, FormatError>)
    ensures
        packet_result_view(packet) == decode_spec(bytes@),
{
    let len: usize = bytes.len();
    if len < HEADER_LEN {
        return Err(FormatError::Truncated);
    }
    let identifier = match Opcode::from_byte(bytes[0]) {
        Some(opcode) => opcode,
        None => {
            return Err(FormatError::UnknownOpcode);
        },
    };
    let declared: usize = bytes[1] as usize + bytes[2] as usize * 256;
    let available: usize = len - HEADER_LEN;
    if available < declared {
        return Err(FormatError::Truncated);
    }
    if available > declared {
        return Err(FormatError::TrailingBytes);
    }
    let payload = slice_to_vec(slice_subrange(bytes, HEADER_LEN, len));
    Ok(AacpPacket { identifier, payload })
}

/// Decoding the frame of a packet gives the packet back.
pub proof fn lemma_decode_inverts_encode(identifier: Opcode, payload: Seq<u8>)
    requires
        payload.len() <= MAX_PAYLOAD_LEN,
    ensures
        decode_spec(frame_spec(identifier, payload)) == Ok::<PacketView, FormatError>(
            PacketView { identifier, payload },
        ),
{
    let frame = frame_spec(identifier, payload);
    lemma_opcode_bytes(identifier, frame[0]);
    assert(frame.subrange(HEADER_LEN as int, frame.len() as int) =~= payload);
}

/// Bytes that decode to a packet are the frame of that packet: a packet has
/// one encoding only.
pub proof fn lemma_encode_inverts_decode(bytes: Seq<u8>)
    requires
        decode_spec(bytes) is Ok,
    ensures
        decode_spec(bytes) matches Ok(packet) && encode_spec(packet.identifier, packet.payload)
            == Ok::<Seq<u8>, FormatError>(bytes),
{
    let packet = decode_spec(bytes)->Ok_0;
    lemma_opcode_bytes(packet.identifier, bytes[0]);
    assert(frame_spec(packet.identifier, packet.payload) =~= bytes);
}

/// The part of the accessory a battery reading belongs to.
#[derive(Debug, Clone, Copy, PartialEq, Eq, Hash, Structural)]
pub enum BatteryComponent {
    Headphone,
    Right,
    Left,
    Case,
}

impl BatteryComponent {
    pub open spec fn to_byte_spec(self) -> u8 {
        match self {
            BatteryComponent::Headphone => 0x01,
            BatteryComponent::Right => 0x02,
            BatteryComponent::Left => 0x04,
            BatteryComponent::Case => 0x08,
        }
    }

    pub open spec fn from_byte_spec(byte: u8) -> Option<BatteryComponent> {
        if byte == 0x01 {
            Some(BatteryComponent::Headphone)
        } else if byte == 0x02 {
            Some(BatteryComponent::Right)
        } else if byte == 0x04 {
            Some(BatteryComponent::Left)
        } else if byte == 0x08 {
            Some(BatteryComponent::Case)
        } else {
            None
        }
    }

    pub fn to_byte(&self) -> (byte: u8)
        ensures
            byte == self.to_byte_spec(),
    {
        match self {
            BatteryComponent::Headphone => 0x01,
            BatteryComponent::Right => 0x02,
            BatteryComponent::Left => 0x04,
            BatteryComponent::Case => 0x08,
        }
    }

    pub fn from_byte(byte: u8) -> (component: Option<BatteryComponent>)
        ensures
            component == Self::from_byte_spec(byte),
    {
        match byte {
            0x01 => Some(BatteryComponent::Headphone),
            0x02 => Some(BatteryComponent::Right),
            0x04 => Some(BatteryComponent::Left),
            0x08 => Some(BatteryComponent::Case),
            _ => None,
        }
    }
}

/// What a battery is doing.
#[derive(Debug, Clone, Copy, PartialEq, Eq, Hash, Structural)]
pub enum BatteryStatus {
    Charging,
    NotCharging,
    Disconnected,
}

impl BatteryStatus {
    pub open spec fn to_byte_spec(self) -> u8 {
        match self {
            BatteryStatus::Charging => 0x01,
            BatteryStatus::NotCharging => 0x02,
            BatteryStatus::Disconnected => 0x04,
        }
    }

    pub open spec fn from_byte_spec(byte: u8) -> Option<BatteryStatus> {
        if byte == 0x01 {
            Some(BatteryStatus::Charging)
        } else if byte == 0x02 {
            Some(BatteryStatus::NotCharging)
        } else if byte == 0x04 {
            Some(BatteryStatus::Disconnected)
        } else {
            None
        }
    }

    pub fn to_byte(&self) -> (byte: u8)
        ensures
            byte == self.to_byte_spec(),
    {
        match self {
            BatteryStatus::Charging => 0x01,
            BatteryStatus::NotCharging => 0x02,
            BatteryStatus::Disconnected => 0x04,
        }
    }

    pub fn from_byte(byte: u8) -> (status: Option<BatteryStatus>)
        ensures
            status == Self::from_byte_spec(byte),
    {
        match byte {
            0x01 => Some(BatteryStatus::Charging),
            0x02 => Some(BatteryStatus::NotCharging),
            0x04 => Some(BatteryStatus::Disconnected),
            _ => None,
        }
    }
}

/// One battery reading of the accessory.
#[derive(Debug, Clone, Copy, PartialEq, Eq, Structural)]
pub struct BatteryInfo {
    pub component: BatteryComponent,
    /// Percentage, at most 100; absent while the accessory reports none.
    pub level: Option<u8>,
    pub status: BatteryStatus,
}

/// The level byte that stands for an absent level.
pub const LEVEL_ABSENT: u8 = 0xFF;

/// The highest level a battery can report.
pub const LEVEL_MAX: u8 = 100;

/// A battery record takes this many bytes of a payload.
pub const BATTERY_RECORD_LEN: usize = 3;

impl BatteryInfo {
    /// A reading is well formed if its level, where present, is a percentage.
    pub open spec fn wf(self) -> bool {
        self.level matches Some(level) ==> level <= LEVEL_MAX
    }
}

/// The level that a level byte stands for, if it stands for one.
pub open spec fn level_of_byte(byte: u8) -> Option<Option<u8>> {
    if byte == LEVEL_ABSENT {
        Some(None)
    } else if byte <= LEVEL_MAX {
        Some(Some(byte))
    } else {
        None
    }
}

/// The reading that three bytes stand for: component, level, status.
pub open spec fn battery_record_spec(component: u8, level: u8, status: u8) -> Option<BatteryInfo> {
    match (
        BatteryComponent::from_byte_spec(component),
        level_of_byte(level),
        BatteryStatus::from_byte_spec(status),
    ) {
        (Some(component), Some(level), Some(status)) => Some(
            BatteryInfo { component, level, status },
        ),
        _ => None,
    }
}

/// The `index`-th record of a battery payload.
pub open spec fn battery_record_at(payload: Seq<u8>, index: int) -> Option<BatteryInfo> {
    battery_record_spec(
        payload[1 + BATTERY_RECORD_LEN * index],
        payload[2 + BATTERY_RECORD_LEN * index],
        payload[3 + BATTERY_RECORD_LEN * index],
    )
}

/// Whether no two readings speak of the same component.
pub open spec fn distinct_components(readings: Seq<BatteryInfo>) -> bool {
    forall|i: int, j: int|
        0 <= i < j < readings.len() ==> (#[trigger] readings[i]).component != (
        #[trigger] readings[j]).component
}

/// The readings of a battery payload, whose records are all well formed.
pub open spec fn battery_readings(payload: Seq<u8>) -> Seq<BatteryInfo> {
    Seq::new(payload[0] as nat, |i: int| battery_record_at(payload, i)->Some_0)
}

/// What a battery payload holds: a count, then so many records of three
/// bytes, no component twice.
pub open spec fn decode_battery_spec(payload: Seq<u8>) -> Result<Seq<BatteryInfo>, FormatError> {
    if payload.len() < 1 {
        Err(FormatError::Truncated)
    } else if payload.len() < 1 + BATTERY_RECORD_LEN * payload[0] {
        Err(FormatError::Truncated)
    } else if payload.len() > 1 + BATTERY_RECORD_LEN * payload[0] {
        Err(FormatError::TrailingBytes)
    } else if !(forall|i: int| 0 <= i < payload[0] ==> (#[trigger] battery_record_at(payload, i))
        is Some) {
        Err(FormatError::Malformed)
    } else if !distinct_components(battery_readings(payload)) {
        Err(FormatError::Malformed)
    } else {
        Ok(battery_readings(payload))
    }
}

/// The readings of a decoding result.
pub open spec fn readings_result_view(result: Result<Vec<BatteryInfo>, FormatError>) -> Result<
    Seq<BatteryInfo>,
    FormatError,
> {
    match result {
        Ok(readings) => Ok(readings@),
        Err(error) => Err(error),
    }
}

/// Decodes one battery record.
pub fn decode_battery_record(component: u8, level: u8, status: u8) -> (reading: Option<BatteryInfo>)
    ensures
        reading == battery_record_spec(component, level, status),
        reading matches Some(r) ==> r.wf(),
{
    let component = match BatteryComponent::from_byte(component) {
        Some(c) => c,
        None => {
            return None;
        },
    };
    let level: Option<u8> = if level == LEVEL_ABSENT {
        None
    } else if level <= LEVEL_MAX {
        Some(level)
    } else {
        return None;
    };
    let status = match BatteryStatus::from_byte(status) {
        Some(s) => s,
        None => {
            return None;
        },
    };
    Some(BatteryInfo { component, level, status })
}

/// Whether some reading speaks of the component.
pub open spec fn has_component(readings: Seq<BatteryInfo>, component: BatteryComponent) -> bool {
    exists|i: int| 0 <= i < readings.len() && (#[trigger] readings[i]).component == component
}

/// Tells whether some reading speaks of the component.
pub fn contains_component(readings: &Vec<BatteryInfo>, component: BatteryComponent) -> (found: bool)
    ensures
        found == has_component(readings@, component),
{
    let mut i: usize = 0;
    while i < readings.len()
        invariant
            i <= readings@.len(),
            forall|j: int| 0 <= j < i ==> (#[trigger] readings@[j]).component != component,
        decreases readings@.len() - i,
    {
        if readings[i].component == component {
            return true;
        }
        i += 1;
    }
    false
}

/// Decodes the payload of a battery packet.
pub fn decode_battery(payload: &[u8]) -> (readings: Result<Vec<BatteryInfo>, FormatError>)
    ensures
        readings_result_view(readings) == decode_battery_spec(payload@),
        readings matches Ok(list) ==> {
            &&& distinct_components(list@)
            &&& forall|i: int| 0 <= i < list@.len() ==> (#[trigger] list@[i]).wf()
        },
{
    if payload.len() < 1 {
        return Err(FormatError::Truncated);
    }
    let count: usize = payload[0] as usize;
    let needed: usize = 1 + BATTERY_RECORD_LEN * count;
    if payload.len() < needed {
        return Err(FormatError::Truncated);
    }
    if payload.len() > needed {
        return Err(FormatError::TrailingBytes);
    }
    let mut out: Vec<BatteryInfo> = Vec::new();
    let mut i: usize = 0;
    while i < count
        invariant
            i <= count,
            count == payload@[0],
            payload@.len() == 1 + BATTERY_RECORD_LEN * count,
            out@.len() == i,
            forall|j: int| 0 <= j < i ==> battery_record_at(payload@, j) == Some(#[trigger] out@[j]),
            forall|j: int| 0 <= j < i ==> (#[trigger] out@[j]).wf(),
            distinct_components(out@),
        decreases count - i,
    {
        let base: usize = 1 + BATTERY_RECORD_LEN * i;
        match decode_battery_record(payload[base], payload[base + 1], payload[base + 2]) {
            None => {
                assert(battery_record_at(payload@, i as int) is None);
                return Err(FormatError::Malformed);
            },
            Some(reading) => {
                if contains_component(&out, reading.component) {
                    proof {
                        let k = choose|k: int|
                            0 <= k < out@.len() && (#[trigger] out@[k]).component
                                == reading.component;
                        let all = battery_readings(payload@);
                        if forall|m: int|
                            0 <= m < payload@[0] ==> (#[trigger] battery_record_at(payload@, m))
                                is Some {
                            assert(all[k] == out@[k]);
                            assert(all[i as int] == reading);
                            assert(!distinct_components(all));
                        }
                    }
                    return Err(FormatError::Malformed);
                }
                let ghost before = out@;
                out.push(reading);
                assert(distinct_components(out@)) by {
                    assert forall|a: int, b: int| 0 <= a < b < out@.len() implies (
                    #[trigger] out@[a]).component != (#[trigger] out@[b]).component by {
                        if b < before.len() {
                            assert(out@[a] == before[a] && out@[b] == before[b]);
                        } else {
                            assert(out@[a] == before[a]);
                        }
                    }
                }
            },
        }
        i += 1;
    }
    assert forall|j: int| 0 <= j < payload@[0] implies (#[trigger] battery_record_at(payload@, j))
        is Some by {
        assert(battery_record_at(payload@, j) == Some(out@[j]));
    }
    assert(out@ =~= battery_readings(payload@)) by {
        assert forall|j: int| 0 <= j < out@.len() implies out@[j] == battery_readings(payload@)[j] by {
            assert(battery_record_at(payload@, j) == Some(out@[j]));
        }
    }
    Ok(out)
}

/// The settings of the accessory that the host can read and write.
#[derive(Debug, Clone, Copy, PartialEq, Eq, Hash, Structural)]
pub enum ControlCommandIdentifiers {
    MicMode,
    ButtonSendMode,
    OwnsConnection,
    EarDetectionConfig,
    ListeningMode,
    VoiceTrigger,
    OneBudAncMode,
    ChimeVolume,
    AdaptiveVolumeConfig,
    ConversationDetectConfig,
    AutoAncStrength,
    AllowOffOption,
}

impl ControlCommandIdentifiers {
    pub open spec fn to_byte_spec(self) -> u8 {
        match self {
            ControlCommandIdentifiers::MicMode => 0x01,
            ControlCommandIdentifiers::ButtonSendMode => 0x05,
            ControlCommandIdentifiers::OwnsConnection => 0x06,
            ControlCommandIdentifiers::EarDetectionConfig => 0x0A,
            ControlCommandIdentifiers::ListeningMode => 0x0D,
            ControlCommandIdentifiers::VoiceTrigger => 0x12,
            ControlCommandIdentifiers::OneBudAncMode => 0x1B,
            ControlCommandIdentifiers::ChimeVolume => 0x1F,
            ControlCommandIdentifiers::AdaptiveVolumeConfig => 0x26,
            ControlCommandIdentifiers::ConversationDetectConfig => 0x28,
            ControlCommandIdentifiers::AutoAncStrength => 0x2E,
            ControlCommandIdentifiers::AllowOffOption => 0x34,
        }
    }

    pub open spec fn from_byte_spec(byte: u8) -> Option<ControlCommandIdentifiers> {
        if byte == 0x01 {
            Some(ControlCommandIdentifiers::MicMode)
        } else if byte == 0x05 {
            Some(ControlCommandIdentifiers::ButtonSendMode)
        } else if byte == 0x06 {
            Some(ControlCommandIdentifiers::OwnsConnection)
        } else if byte == 0x0A {
            Some(ControlCommandIdentifiers::EarDetectionConfig)
        } else if byte == 0x0D {
            Some(ControlCommandIdentifiers::ListeningMode)
        } else if byte == 0x12 {
            Some(ControlCommandIdentifiers::VoiceTrigger)
        } else if byte == 0x1B {
            Some(ControlCommandIdentifiers::OneBudAncMode)
        } else if byte == 0x1F {
            Some(ControlCommandIdentifiers::ChimeVolume)
        } else if byte == 0x26 {
            Some(ControlCommandIdentifiers::AdaptiveVolumeConfig)
        } else if byte == 0x28 {
            Some(ControlCommandIdentifiers::ConversationDetectConfig)
        } else if byte == 0x2E {
            Some(ControlCommandIdentifiers::AutoAncStrength)
        } else if byte == 0x34 {
            Some(ControlCommandIdentifiers::AllowOffOption)
        } else {
            None
        }
    }

    pub fn to_byte(&self) -> (byte: u8)
        ensures
            byte == self.to_byte_spec(),
    {
        match self {
            ControlCommandIdentifiers::MicMode => 0x01,
            ControlCommandIdentifiers::ButtonSendMode => 0x05,
            ControlCommandIdentifiers::OwnsConnection => 0x06,
            ControlCommandIdentifiers::EarDetectionConfig => 0x0A,
            ControlCommandIdentifiers::ListeningMode => 0x0D,
            ControlCommandIdentifiers::VoiceTrigger => 0x12,
            ControlCommandIdentifiers::OneBudAncMode => 0x1B,
            ControlCommandIdentifiers::ChimeVolume => 0x1F,
            ControlCommandIdentifiers::AdaptiveVolumeConfig => 0x26,
            ControlCommandIdentifiers::ConversationDetectConfig => 0x28,
            ControlCommandIdentifiers::AutoAncStrength => 0x2E,
            ControlCommandIdentifiers::AllowOffOption => 0x34,
        }
    }

    pub fn from_byte(byte: u8) -> (identifier: Option<ControlCommandIdentifiers>)
        ensures
            identifier == Self::from_byte_spec(byte),
    {
        match byte {
            0x01 => Some(ControlCommandIdentifiers::MicMode),
            0x05 => Some(ControlCommandIdentifiers::ButtonSendMode),
            0x06 => Some(ControlCommandIdentifiers::OwnsConnection),
            0x0A => Some(ControlCommandIdentifiers::EarDetectionConfig),
            0x0D => Some(ControlCommandIdentifiers::ListeningMode),
            0x12 => Some(ControlCommandIdentifiers::VoiceTrigger),
            0x1B => Some(ControlCommandIdentifiers::OneBudAncMode),
            0x1F => Some(ControlCommandIdentifiers::ChimeVolume),
            0x26 => Some(ControlCommandIdentifiers::AdaptiveVolumeConfig),
            0x28 => Some(ControlCommandIdentifiers::ConversationDetectConfig),
            0x2E => Some(ControlCommandIdentifiers::AutoAncStrength),
            0x34 => Some(ControlCommandIdentifiers::AllowOffOption),
            _ => None,
        }
    }
}

/// A byte is the byte of a setting exactly when it decodes to that setting.
pub proof fn lemma_identifier_bytes(identifier: ControlCommandIdentifiers, byte: u8)
    ensures
        ControlCommandIdentifiers::from_byte_spec(identifier.to_byte_spec()) == Some(identifier),
        ControlCommandIdentifiers::from_byte_spec(byte) == Some(identifier) <==> byte
            == identifier.to_byte_spec(),
{
}

/// The value of one setting, as the accessory last reported it.
#[derive(Debug, Clone)]
pub struct ControlCommandStatus {
    pub identifier: ControlCommandIdentifiers,
    pub value: Vec<u8>,
}

/// The value of one setting over plain values.
pub struct ControlCommandStatusView {
    pub identifier: ControlCommandIdentifiers,
    pub value: Seq<u8>,
}

impl View for ControlCommandStatus {
    type V = ControlCommandStatusView;

    open spec fn view(&self) -> ControlCommandStatusView {
        ControlCommandStatusView { identifier: self.identifier, value: self.value@ }
    }
}

/// The payload of a control command: the byte of the setting, then its
/// value.
pub open spec fn control_command_payload_spec(
    identifier: ControlCommandIdentifiers,
    value: Seq<u8>,
) -> Seq<u8> {
    seq![identifier.to_byte_spec()] + value
}

/// What the payload of a control command holds.
pub open spec fn decode_control_command_spec(payload: Seq<u8>) -> Result<
    ControlCommandStatusView,
    FormatError,
> {
    if payload.len() < 1 {
        Err(FormatError::Truncated)
    } else {
        match ControlCommandIdentifiers::from_byte_spec(payload[0]) {
            None => Err(FormatError::Malformed),
            Some(identifier) => Ok(
                ControlCommandStatusView {
                    identifier,
                    value: payload.subrange(1, payload.len() as int),
                },
            ),
        }
    }
}

/// The status of a decoding result.
pub open spec fn status_result_view(result: Result<ControlCommandStatus, FormatError>) -> Result<
    ControlCommandStatusView,
    FormatError,
> {
    match result {
        Ok(status) => Ok(status@),
        Err(error) => Err(error),
    }
}

/// Builds the payload of a control command.
pub fn control_command_payload(identifier: ControlCommandIdentifiers, value: &[u8]) -> (payload:
    Vec<u8>)
    ensures
        payload@ == control_command_payload_spec(identifier, value@),
{
    let mut out: Vec<u8> = Vec::new();
    out.push(identifier.to_byte());
    append_bytes(&mut out, value);
    assert(out@ =~= control_command_payload_spec(identifier, value@));
    out
}

/// Decodes the payload of a control command.
pub fn decode_control_command(payload: &[u8]) -> (status: Result<ControlCommandStatus, FormatError>)
    ensures
        status_result_view(status) == decode_control_command_spec(payload@),
{
    if payload.len() < 1 {
        return Err(FormatError::Truncated);
    }
    match ControlCommandIdentifiers::from_byte(payload[0]) {
        None => Err(FormatError::Malformed),
        Some(identifier) => {
            let value = slice_to_vec(slice_subrange(payload, 1, payload.len()));
            Ok(ControlCommandStatus { identifier, value })
        },
    }
}

/// Decoding the payload of a control command gives setting and value back.
pub proof fn lemma_control_command_round_trip(identifier: ControlCommandIdentifiers, value: Seq<u8>)
    ensures
        decode_control_command_spec(control_command_payload_spec(identifier, value)) == Ok::<
            ControlCommandStatusView,
            FormatError,
        >(ControlCommandStatusView { identifier, value }),
{
    let payload = control_command_payload_spec(identifier, value);
    lemma_identifier_bytes(identifier, payload[0]);
    assert(payload.subrange(1, payload.len() as int) =~= value);
}

/// The keys that the accessory hands out on request.
#[derive(Debug, Clone, Copy, PartialEq, Eq, Hash, Structural)]
pub enum ProximityKeyType {
    Irk,
    EncKey,
}

impl ProximityKeyType {
    pub open spec fn to_byte_spec(self) -> u8 {
        match self {
            ProximityKeyType::Irk => 0x01,
            ProximityKeyType::EncKey => 0x04,
        }
    }

    pub open spec fn from_byte_spec(byte: u8) -> Option<ProximityKeyType> {
        if byte == 0x01 {
            Some(ProximityKeyType::Irk)
        } else if byte == 0x04 {
            Some(ProximityKeyType::EncKey)
        } else {
            None
        }
    }

    pub fn to_byte(&self) -> (byte: u8)
        ensures
            byte == self.to_byte_spec(),
    {
        match self {
            ProximityKeyType::Irk => 0x01,
            ProximityKeyType::EncKey => 0x04,
        }
    }

    pub fn from_byte(byte: u8) -> (key_type: Option<ProximityKeyType>)
        ensures
            key_type == Self::from_byte_spec(byte),
    {
        match byte {
            0x01 => Some(ProximityKeyType::Irk),
            0x04 => Some(ProximityKeyType::EncKey),
            _ => None,
        }
    }
}

/// One key of the accessory.
#[derive(Debug, Clone, Copy)]
pub struct ProximityKey {
    pub key_type: ProximityKeyType,
    pub bytes: [u8; 16],
}

/// A key record takes this many bytes of a payload: the type and the key.
pub const KEY_RECORD_LEN: usize = 17;

/// The bytes `base .. base + N` of a payload as an array.
fn read_array<const N: usize>(bytes: &[u8], base: usize) -> (out: [u8; N])
    requires
        base + N <= bytes@.len(),
    ensures
        out@ == bytes@.subrange(base as int, base + N),
{
    let mut out: [u8; N] = [0u8; N];
    let total: usize = bytes.len();
    let mut i: usize = 0;
    while i < N
        invariant
            i <= N,
            base + N <= bytes@.len(),
            base + N <= total,
            forall|j: int| 0 <= j < i ==> out@[j] == bytes@[base + j],
        decreases N - i,
    {
        out[i] = bytes[base + i];
        i += 1;
    }
    assert(out@ =~= bytes@.subrange(base as int, base + N));
    out
}

/// The `index`-th record of a key payload, if its type byte is one.
pub open spec fn key_record_at(payload: Seq<u8>, index: int) -> Option<ProximityKey> {
    match ProximityKeyType::from_byte_spec(payload[1 + KEY_RECORD_LEN * index]) {
        Some(key_type) => Some(
            ProximityKey {
                key_type,
                bytes: array_of(
                    payload.subrange(
                        2 + KEY_RECORD_LEN * index,
                        1 + KEY_RECORD_LEN * index + KEY_RECORD_LEN,
                    ),
                ),
            },
        ),
        None => None,
    }
}

/// The array that holds the given sixteen bytes.
pub open spec fn array_of(bytes: Seq<u8>) -> [u8; 16] {
    choose|a: [u8; 16]| a@ == bytes
}

/// What a key payload holds: a count, then so many records of a type byte
/// and sixteen key bytes.
pub open spec fn decode_proximity_keys_spec(payload: Seq<u8>) -> Result<
    Seq<ProximityKey>,
    FormatError,
> {
    if payload.len() < 1 {
        Err(FormatError::Truncated)
    } else if payload.len() < 1 + KEY_RECORD_LEN * payload[0] {
        Err(FormatError::Truncated)
    } else if payload.len() > 1 + KEY_RECORD_LEN * payload[0] {
        Err(FormatError::TrailingBytes)
    } else if !(forall|i: int| 0 <= i < payload[0] ==> (#[trigger] key_record_at(payload, i))
        is Some) {
        Err(FormatError::Malformed)
    } else {
        Ok(Seq::new(payload[0] as nat, |i: int| key_record_at(payload, i)->Some_0))
    }
}

/// The keys of a decoding result.
pub open spec fn keys_result_view(result: Result<Vec<ProximityKey>, FormatError>) -> Result<
    Seq<ProximityKey>,
    FormatError,
> {
    match result {
        Ok(keys) => Ok(keys@),
        Err(error) => Err(error),
    }
}

/// Decodes the payload of a key response.
pub fn decode_proximity_keys(payload: &[u8]) -> (keys: Result<Vec<ProximityKey>, FormatError>)
    ensures
        keys_result_view(keys) == decode_proximity_keys_spec(payload@),
{
    if payload.len() < 1 {
        return Err(FormatError::Truncated);
    }
    let count: usize = payload[0] as usize;
    let needed: usize = 1 + KEY_RECORD_LEN * count;
    if payload.len() < needed {
        return Err(FormatError::Truncated);
    }
    if payload.len() > needed {
        return Err(FormatError::TrailingBytes);
    }
    let mut out: Vec<ProximityKey> = Vec::new();
    let mut i: usize = 0;
    while i < count
        invariant
            i <= count,
            count == payload@[0],
            payload@.len() == 1 + KEY_RECORD_LEN * count,
            out@.len() == i,
            forall|j: int| 0 <= j < i ==> key_record_at(payload@, j) == Some(#[trigger] out@[j]),
        decreases count - i,
    {
        let base: usize = 1 + KEY_RECORD_LEN * i;
        match ProximityKeyType::from_byte(payload[base]) {
            None => {
                assert(key_record_at(payload@, i as int) is None);
                return Err(FormatError::Malformed);
            },
            Some(key_type) => {
                let bytes: [u8; 16] = read_array::<16>(payload, base + 1);
                assert(array_of(bytes@) == bytes);
                out.push(ProximityKey { key_type, bytes });
            },
        }
        i += 1;
    }
    assert forall|j: int| 0 <= j < payload@[0] implies (#[trigger] key_record_at(payload@, j))
        is Some by {
        assert(key_record_at(payload@, j) == Some(out@[j]));
    }
    assert(out@ =~= Seq::new(payload@[0] as nat, |i: int| key_record_at(payload@, i)->Some_0)) by {
        assert forall|j: int| 0 <= j < out@.len() implies out@[j] == key_record_at(
            payload@,
            j,
        )->Some_0 by {
            assert(key_record_at(payload@, j) == Some(out@[j]));
        }
    }
    Ok(out)
}

/// Whether the list names the key type.
pub open spec fn names_key_type(types: Seq<ProximityKeyType>, key_type: ProximityKeyType) -> bool {
    exists|i: int| 0 <= i < types.len() && #[trigger] types[i] == key_type
}

/// The request mask for a list of key types: the sum of the bytes of the
/// types that the list names, each counted once.
pub open spec fn key_request_mask(types: Seq<ProximityKeyType>) -> u8 {
    ((if names_key_type(types, ProximityKeyType::Irk) {
        0x01int
    } else {
        0
    }) + (if names_key_type(types, ProximityKeyType::EncKey) {
        0x04int
    } else {
        0
    })) as u8
}

/// Builds the payload of a key request: one byte, the mask of the types.
pub fn proximity_keys_request_payload(types: &[ProximityKeyType]) -> (payload: Vec<u8>)
    ensures
        payload@ == seq![key_request_mask(types@)],
{
    let mut irk: bool = false;
    let mut enc_key: bool = false;
    let mut i: usize = 0;
    while i < types.len()
        invariant
            i <= types@.len(),
            irk == names_key_type(types@.subrange(0, i as int), ProximityKeyType::Irk),
            enc_key == names_key_type(types@.subrange(0, i as int), ProximityKeyType::EncKey),
        decreases types@.len() - i,
    {
        let ghost before = types@.subrange(0, i as int);
        let ghost after = types@.subrange(0, i + 1);
        assert(after[i as int] == types@[i as int]);
        assert forall|t: ProximityKeyType|
            names_key_type(after, t) == (names_key_type(before, t) || types@[i as int]
                == t) by {
            if names_key_type(before, t) {
                let k = choose|k: int| 0 <= k < before.len() && #[trigger] before[k] == t;
                assert(after[k] == t);
            }
            if names_key_type(after, t) {
                let k = choose|k: int| 0 <= k < after.len() && #[trigger] after[k] == t;
                if k < i {
                    assert(before[k] == t);
                }
            }
        }
        match types[i] {
            ProximityKeyType::Irk => {
                irk = true;
            },
            ProximityKeyType::EncKey => {
                enc_key = true;
            },
        }
        i += 1;
    }
    assert(types@.subrange(0, i as int) =~= types@);
    let mut mask: u8 = 0;
    if irk {
        mask += 0x01;
    }
    if enc_key {
        mask += 0x04;
    }
    let out: Vec<u8> = vec![mask];
    assert(out@ =~= seq![key_request_mask(types@)]);
    out
}

/// One host in the accessory's own list of connected devices.
#[derive(Debug, Clone, Copy)]
pub struct ConnectedDeviceInfo {
    /// The address of the host, in textual octet order.
    pub mac: [u8; 6],
    pub info1: u8,
    pub info2: u8,
}

/// A device record takes this many bytes of a payload.
pub const DEVICE_RECORD_LEN: usize = 8;

/// The array that holds the given six bytes.
pub open spec fn mac_of(bytes: Seq<u8>) -> [u8; 6] {
    choose|a: [u8; 6]| a@ == bytes
}

/// The `index`-th record of a device payload.
pub open spec fn device_record_at(payload: Seq<u8>, index: int) -> ConnectedDeviceInfo {
    ConnectedDeviceInfo {
        mac: mac_of(payload.subrange(1 + DEVICE_RECORD_LEN * index, 7 + DEVICE_RECORD_LEN * index)),
        info1: payload[7 + DEVICE_RECORD_LEN * index],
        info2: payload[8 + DEVICE_RECORD_LEN * index],
    }
}

/// What a device payload holds: a count, then so many records of an address
/// and two bytes of further information.
pub open spec fn decode_connected_devices_spec(payload: Seq<u8>) -> Result<
    Seq<ConnectedDeviceInfo>,
    FormatError,
> {
    if payload.len() < 1 {
        Err(FormatError::Truncated)
    } else if payload.len() < 1 + DEVICE_RECORD_LEN * payload[0] {
        Err(FormatError::Truncated)
    } else if payload.len() > 1 + DEVICE_RECORD_LEN * payload[0] {
        Err(FormatError::TrailingBytes)
    } else {
        Ok(Seq::new(payload[0] as nat, |i: int| device_record_at(payload, i)))
    }
}

/// The devices of a decoding result.
pub open spec fn devices_result_view(result: Result<Vec<ConnectedDeviceInfo>, FormatError>) -> Result<
    Seq<ConnectedDeviceInfo>,
    FormatError,
> {
    match result {
        Ok(devices) => Ok(devices@),
        Err(error) => Err(error),
    }
}

/// Decodes the payload of a connected-devices packet.
pub fn decode_connected_devices(payload: &[u8]) -> (devices: Result<
    Vec<ConnectedDeviceInfo>,
    FormatError,
>)
    ensures
        devices_result_view(devices) == decode_connected_devices_spec(payload@),
{
    if payload.len() < 1 {
        return Err(FormatError::Truncated);
    }
    let count: usize = payload[0] as usize;
    let needed: usize = 1 + DEVICE_RECORD_LEN * count;
    if payload.len() < needed {
        return Err(FormatError::Truncated);
    }
    if payload.len() > needed {
        return Err(FormatError::TrailingBytes);
    }
    let mut out: Vec<ConnectedDeviceInfo> = Vec::new();
    let mut i: usize = 0;
    while i < count
        invariant
            i <= count,
            count == payload@[0],
            payload@.len() == 1 + DEVICE_RECORD_LEN * count,
            out@.len() == i,
            forall|j: int| 0 <= j < i ==> #[trigger] out@[j] == device_record_at(payload@, j),
        decreases count - i,
    {
        let base: usize = 1 + DEVICE_RECORD_LEN * i;
        let mac: [u8; 6] = read_array::<6>(payload, base);
        assert(mac_of(mac@) == mac);
        out.push(ConnectedDeviceInfo { mac, info1: payload[base + 6], info2: payload[base + 7] });
        i += 1;
    }
    assert(out@ =~= Seq::new(payload@[0] as nat, |i: int| device_record_at(payload@, i)));
    Ok(out)
}

/// Where one bud is.
#[derive(Debug, Clone, Copy, PartialEq, Eq, Hash, Structural)]
pub enum EarDetectionStatus {
    InEar,
    OutOfEar,
    InCase,
}

impl EarDetectionStatus {
    pub open spec fn from_byte_spec(byte: u8) -> Option<EarDetectionStatus> {
        if byte == 0x00 {
            Some(EarDetectionStatus::InEar)
        } else if byte == 0x01 {
            Some(EarDetectionStatus::OutOfEar)
        } else if byte == 0x02 {
            Some(EarDetectionStatus::InCase)
        } else {
            None
        }
    }

    pub fn from_byte(byte: u8) -> (status: Option<EarDetectionStatus>)
        ensures
            status == Self::from_byte_spec(byte),
    {
        match byte {
            0x00 => Some(EarDetectionStatus::InEar),
            0x01 => Some(EarDetectionStatus::OutOfEar),
            0x02 => Some(EarDetectionStatus::InCase),
            _ => None,
        }
    }
}

/// What an ear-detection payload holds: the place of the primary bud, then
/// that of the secondary one.
pub open spec fn decode_ear_detection_spec(payload: Seq<u8>) -> Result<
    Seq<EarDetectionStatus>,
    FormatError,
> {
    if payload.len() < 2 {
        Err(FormatError::Truncated)
    } else if payload.len() > 2 {
        Err(FormatError::TrailingBytes)
    } else {
        match (
            EarDetectionStatus::from_byte_spec(payload[0]),
            EarDetectionStatus::from_byte_spec(payload[1]),
        ) {
            (Some(primary), Some(secondary)) => Ok(seq![primary, secondary]),
            _ => Err(FormatError::Malformed),
        }
    }
}

/// The places of a decoding result.
pub open spec fn ears_result_view(result: Result<Vec<EarDetectionStatus>, FormatError>) -> Result<
    Seq<EarDetectionStatus>,
    FormatError,
> {
    match result {
        Ok(places) => Ok(places@),
        Err(error) => Err(error),
    }
}

/// Decodes the payload of an ear-detection packet.
pub fn decode_ear_detection(payload: &[u8]) -> (places: Result<Vec<EarDetectionStatus>, FormatError>)
    ensures
        ears_result_view(places) == decode_ear_detection_spec(payload@),
{
    if payload.len() < 2 {
        return Err(FormatError::Truncated);
    }
    if payload.len() > 2 {
        return Err(FormatError::TrailingBytes);
    }
    match (EarDetectionStatus::from_byte(payload[0]), EarDetectionStatus::from_byte(payload[1])) {
        (Some(primary), Some(secondary)) => {
            let out: Vec<EarDetectionStatus> = vec![primary, secondary];
            assert(out@ =~= seq![primary, secondary]);
            Ok(out)
        },
        _ => Err(FormatError::Malformed),
    }
}

/// What a one-byte payload holds.
pub open spec fn decode_single_byte_spec(payload: Seq<u8>) -> Result<u8, FormatError> {
    if payload.len() < 1 {
        Err(FormatError::Truncated)
    } else if payload.len() > 1 {
        Err(FormatError::TrailingBytes)
    } else {
        Ok(payload[0])
    }
}

/// Decodes a payload that is one byte long.
pub fn decode_single_byte(payload: &[u8]) -> (byte: Result<u8, FormatError>)
    ensures
        byte == decode_single_byte_spec(payload@),
{
    if payload.len() < 1 {
        Err(FormatError::Truncated)
    } else if payload.len() > 1 {
        Err(FormatError::TrailingBytes)
    } else {
        Ok(payload[0])
    }
}

/// Whether the byte of a conversational-awareness packet says that the
/// wearer is speaking: the accessory sends 1 or 2 when speech starts.
pub open spec fn speaking_spec(byte: u8) -> bool {
    byte == 0x01 || byte == 0x02
}

/// Tells whether the wearer is speaking.
pub fn is_speaking(byte: u8) -> (speaking: bool)
    ensures
        speaking == speaking_spec(byte),
{
    byte == 0x01 || byte == 0x02
}

/// Frames a payload that is known to fit.
fn frame(identifier: Opcode, payload: &[u8]) -> (out: Vec<u8>)
    requires
        payload@.len() <= MAX_PAYLOAD_LEN,
    ensures
        out@ == frame_spec(identifier, payload@),
{
    let len: usize = payload.len();
    let mut out: Vec<u8> = Vec::new();
    out.push(identifier.to_byte());
    out.push((len % 256) as u8);
    out.push((len / 256) as u8);
    append_bytes(&mut out, payload);
    assert(out@ =~= frame_spec(identifier, payload@));
    out
}

/// The payload of the handshake that opens a session.
pub open spec fn handshake_payload() -> Seq<u8> {
    seq![0x01u8, 0x00u8, 0x02u8, 0x00u8]
}

/// The payload that switches on every feature the host understands.
pub open spec fn feature_flags_payload() -> Seq<u8> {
    seq![0xFFu8, 0x00u8, 0x00u8, 0x00u8, 0x00u8, 0x00u8, 0x00u8, 0x00u8]
}

/// The payload that asks for every kind of notification.
pub open spec fn notifications_payload() -> Seq<u8> {
    seq![0xFFu8, 0xFFu8, 0xFFu8, 0xFFu8]
}

/// The payload of the additional packet that the accessory wants to see
/// before it answers key requests.
pub open spec fn vendor_init_payload() -> Seq<u8> {
    seq![0xFFu8, 0xFFu8, 0xFFu8, 0xFFu8, 0xFFu8, 0xFFu8, 0xFFu8, 0xFFu8]
}

/// The payload of a packet that speaks of two hosts: this one, then the
/// other.
pub open spec fn peer_payload(local_mac: Seq<u8>, peer_mac: Seq<u8>) -> Seq<u8> {
    local_mac + peer_mac
}

/// The handshake packet.
pub fn handshake_packet() -> (packet: Vec<u8>)
    ensures
        packet@ == frame_spec(Opcode::Handshake, handshake_payload()),
{
    let payload: [u8; 4] = [0x01, 0x00, 0x02, 0x00];
    assert(payload@ =~= handshake_payload());
    frame(Opcode::Handshake, payload.as_slice())
}

/// The packet that sets the feature flags.
pub fn set_feature_flags_packet() -> (packet: Vec<u8>)
    ensures
        packet@ == frame_spec(Opcode::SetFeatureFlags, feature_flags_payload()),
{
    let payload: [u8; 8] = [0xFF, 0x00, 0x00, 0x00, 0x00, 0x00, 0x00, 0x00];
    assert(payload@ =~= feature_flags_payload());
    frame(Opcode::SetFeatureFlags, payload.as_slice())
}

/// The packet that requests notifications.
pub fn notification_request_packet() -> (packet: Vec<u8>)
    ensures
        packet@ == frame_spec(Opcode::RequestNotifications, notifications_payload()),
{
    let payload: [u8; 4] = [0xFF, 0xFF, 0xFF, 0xFF];
    assert(payload@ =~= notifications_payload());
    frame(Opcode::RequestNotifications, payload.as_slice())
}

/// The additional packet of the bring-up sequence.
pub fn vendor_init_packet() -> (packet: Vec<u8>)
    ensures
        packet@ == frame_spec(Opcode::VendorInit, vendor_init_payload()),
{
    let payload: [u8; 8] = [0xFF, 0xFF, 0xFF, 0xFF, 0xFF, 0xFF, 0xFF, 0xFF];
    assert(payload@ =~= vendor_init_payload());
    frame(Opcode::VendorInit, payload.as_slice())
}

/// The packet that asks the accessory for keys of the given types.
pub fn proximity_keys_request_packet(types: &[ProximityKeyType]) -> (packet: Vec<u8>)
    ensures
        packet@ == frame_spec(Opcode::ProximityKeysRequest, seq![key_request_mask(types@)]),
{
    let payload = proximity_keys_request_payload(types);
    frame(Opcode::ProximityKeysRequest, payload.as_slice())
}

/// The packet that sets a setting of the accessory to a value.
pub fn control_command_packet(identifier: ControlCommandIdentifiers, value: &[u8]) -> (packet:
    Result<Vec<u8>, FormatError>)
    ensures
        bytes_result_view(packet) == encode_spec(
            Opcode::ControlCommand,
            control_command_payload_spec(identifier, value@),
        ),
{
    let payload = control_command_payload(identifier, value);
    encode(Opcode::ControlCommand, payload.as_slice())
}

/// The packet that asks the accessory for the value of a setting: a control
/// command without a value.
pub fn control_command_query_packet(identifier: ControlCommandIdentifiers) -> (packet: Vec<u8>)
    ensures
        packet@ == frame_spec(
            Opcode::ControlCommand,
            control_command_payload_spec(identifier, Seq::<u8>::empty()),
        ),
{
    let payload: [u8; 1] = [identifier.to_byte()];
    assert(payload@ =~= control_command_payload_spec(identifier, Seq::<u8>::empty()));
    frame(Opcode::ControlCommand, payload.as_slice())
}

/// The packet that gives the accessory a new name, taken as UTF-8.
pub fn rename_packet(name: &str) -> (packet: Result<Vec<u8>, FormatError>)
    ensures
        bytes_result_view(packet) == encode_spec(Opcode::Rename, name.spec_bytes()),
{
    encode(Opcode::Rename, name.as_bytes())
}

/// Joins the addresses of this host and of another one.
pub fn peer_bytes(local_mac: &[u8; 6], peer_mac: &[u8; 6]) -> (payload: Vec<u8>)
    ensures
        payload@ == peer_payload(local_mac@, peer_mac@),
{
    let mut payload: Vec<u8> = Vec::new();
    append_bytes(&mut payload, local_mac.as_slice());
    append_bytes(&mut payload, peer_mac.as_slice());
    assert(payload@ =~= peer_payload(local_mac@, peer_mac@));
    payload
}

/// The packet that tells a newly joined host which media this host plays.
pub fn media_information_packet(local_mac: &[u8; 6], peer_mac: &[u8; 6]) -> (packet: Vec<u8>)
    ensures
        packet@ == frame_spec(Opcode::MediaInformation, peer_payload(local_mac@, peer_mac@)),
{
    let payload = peer_bytes(local_mac, peer_mac);
    frame(Opcode::MediaInformation, payload.as_slice())
}

/// The packet that announces a newly joined host to the accessory.
pub fn add_peer_device_packet(local_mac: &[u8; 6], peer_mac: &[u8; 6]) -> (packet: Vec<u8>)
    ensures
        packet@ == frame_spec(Opcode::AddPeerDevice, peer_payload(local_mac@, peer_mac@)),
{
    let payload = peer_bytes(local_mac, peer_mac);
    frame(Opcode::AddPeerDevice, payload.as_slice())
}

/// What the accessory told the host.
#[derive(Debug, Clone)]
pub enum AACPEvent {
    /// The places of the buds, before and now.
    EarDetection(Vec<EarDetectionStatus>, Vec<EarDetectionStatus>),
    BatteryInfo(Vec<BatteryInfo>),
    ControlCommand(ControlCommandStatus),
    /// Whether the wearer is speaking.
    ConversationalAwareness(bool),
    /// The hosts connected to the accessory, before and now.
    ConnectedDevices(Vec<ConnectedDeviceInfo>, Vec<ConnectedDeviceInfo>),
    /// The accessory asks this host to give up the audio route.
    OwnershipToFalseRequest,
    ProximityKeys(Vec<ProximityKey>),
}

/// An event over plain values.
pub enum EventView {
    EarDetection(Seq<EarDetectionStatus>, Seq<EarDetectionStatus>),
    BatteryInfo(Seq<BatteryInfo>),
    ControlCommand(ControlCommandStatusView),
    ConversationalAwareness(bool),
    ConnectedDevices(Seq<ConnectedDeviceInfo>, Seq<ConnectedDeviceInfo>),
    OwnershipToFalseRequest,
    ProximityKeys(Seq<ProximityKey>),
}

impl View for AACPEvent {
    type V = EventView;

    open spec fn view(&self) -> EventView {
        match self {
            AACPEvent::EarDetection(old_places, new_places) => EventView::EarDetection(
                old_places@,
                new_places@,
            ),
            AACPEvent::BatteryInfo(readings) => EventView::BatteryInfo(readings@),
            AACPEvent::ControlCommand(status) => EventView::ControlCommand(status@),
            AACPEvent::ConversationalAwareness(speaking) => EventView::ConversationalAwareness(
                *speaking,
            ),
            AACPEvent::ConnectedDevices(old_devices, new_devices) => EventView::ConnectedDevices(
                old_devices@,
                new_devices@,
            ),
            AACPEvent::OwnershipToFalseRequest => EventView::OwnershipToFalseRequest,
            AACPEvent::ProximityKeys(keys) => EventView::ProximityKeys(keys@),
        }
    }
}

/// A copy of the bytes.
pub fn copy_bytes(bytes: &Vec<u8>) -> (out: Vec<u8>)
    ensures
        out@ == bytes@,
{
    slice_to_vec(bytes.as_slice())
}

} // verus!
