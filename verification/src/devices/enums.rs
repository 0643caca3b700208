use crate::bluetooth::aacp::BatteryInfo;
use vstd::prelude::*;

verus! {

/// The families of accessory the daemon knows how to manage.
#[derive(Debug, Clone, Copy, PartialEq, Eq, Structural)]
pub enum DeviceType {
    AirPods,
    Nothing,
}

impl DeviceType {
    pub open spec fn label_spec(self) -> Seq<char> {
        match self {
            DeviceType::AirPods => "AirPods"@,
            DeviceType::Nothing => "Nothing"@,
        }
    }

    /// Human-readable name of the device family.
    pub fn label(&self) -> (text: String)
        ensures
            text@ == self.label_spec(),
    {
        match self {
            DeviceType::AirPods => "AirPods".to_owned(),
            DeviceType::Nothing => "Nothing".to_owned(),
        }
    }
}

/// Identification strings reported by an AirPods-class accessory.
#[derive(Debug, Clone)]
pub struct AirPodsInformation {
    pub model_number: String,
    pub manufacturer: String,
    pub serial_number: String,
    pub left_serial_number: String,
    pub right_serial_number: String,
    pub version1: String,
    pub version2: String,
    pub version3: String,
}

/// Identification strings reported by a Nothing accessory.
#[derive(Debug, Clone)]
pub struct NothingInformation {
    pub serial_number: String,
    pub firmware_version: String,
}

#[derive(Debug, Clone)]
pub enum DeviceInformation {
    AirPods(AirPodsInformation),
    Nothing(NothingInformation),
}

/// One entry of the device registry, as the user interface sees it.
#[derive(Debug, Clone)]
pub struct DeviceData {
    pub name: String,
    pub type_: DeviceType,
    pub information: Option<DeviceInformation>,
}

/// Noise-cancellation setting of a Nothing accessory.
#[derive(Debug, Clone, Copy, PartialEq, Eq, Structural)]
pub enum NothingAncMode {
    Off,
    LowNoiseCancellation,
    MidNoiseCancellation,
    HighNoiseCancellation,
    AdaptiveNoiseCancellation,
    Transparency,
}

impl NothingAncMode {
    pub open spec fn from_byte_spec(value: u8) -> NothingAncMode {
        if value == 0x03 {
            NothingAncMode::LowNoiseCancellation
        } else if value == 0x02 {
            NothingAncMode::MidNoiseCancellation
        } else if value == 0x01 {
            NothingAncMode::HighNoiseCancellation
        } else if value == 0x04 {
            NothingAncMode::AdaptiveNoiseCancellation
        } else if value == 0x07 {
            NothingAncMode::Transparency
        } else {
            NothingAncMode::Off
        }
    }

    pub open spec fn to_byte_spec(self) -> u8 {
        match self {
            NothingAncMode::LowNoiseCancellation => 0x03,
            NothingAncMode::MidNoiseCancellation => 0x02,
            NothingAncMode::HighNoiseCancellation => 0x01,
            NothingAncMode::AdaptiveNoiseCancellation => 0x04,
            NothingAncMode::Transparency => 0x07,
            NothingAncMode::Off => 0x05,
        }
    }

    pub open spec fn label_spec(self) -> Seq<char> {
        match self {
            NothingAncMode::Off => "Off"@,
            NothingAncMode::LowNoiseCancellation => "Low Noise Cancellation"@,
            NothingAncMode::MidNoiseCancellation => "Mid Noise Cancellation"@,
            NothingAncMode::HighNoiseCancellation => "High Noise Cancellation"@,
            NothingAncMode::AdaptiveNoiseCancellation => "Adaptive Noise Cancellation"@,
            NothingAncMode::Transparency => "Transparency"@,
        }
    }

    /// Decodes the mode byte of the accessory. Every byte the accessory does
    /// not define reads as `Off`.
    pub fn from_byte(value: u8) -> (mode: Self)
        ensures
            mode == Self::from_byte_spec(value),
    {
        match value {
            0x03 => NothingAncMode::LowNoiseCancellation,
            0x02 => NothingAncMode::MidNoiseCancellation,
            0x01 => NothingAncMode::HighNoiseCancellation,
            0x04 => NothingAncMode::AdaptiveNoiseCancellation,
            0x07 => NothingAncMode::Transparency,
            0x05 => NothingAncMode::Off,
            _ => NothingAncMode::Off,
        }
    }

    /// The byte the accessory expects for this mode.
    pub fn to_byte(&self) -> (value: u8)
        ensures
            value == self.to_byte_spec(),
    {
        match self {
            NothingAncMode::LowNoiseCancellation => 0x03,
            NothingAncMode::MidNoiseCancellation => 0x02,
            NothingAncMode::HighNoiseCancellation => 0x01,
            NothingAncMode::AdaptiveNoiseCancellation => 0x04,
            NothingAncMode::Transparency => 0x07,
            NothingAncMode::Off => 0x05,
        }
    }

    /// Human-readable name of the mode.
    pub fn label(&self) -> (text: String)
        ensures
            text@ == self.label_spec(),
    {
        match self {
            NothingAncMode::Off => "Off".to_owned(),
            NothingAncMode::LowNoiseCancellation => "Low Noise Cancellation".to_owned(),
            NothingAncMode::MidNoiseCancellation => "Mid Noise Cancellation".to_owned(),
            NothingAncMode::HighNoiseCancellation => "High Noise Cancellation".to_owned(),
            NothingAncMode::AdaptiveNoiseCancellation => "Adaptive Noise Cancellation".to_owned(),
            NothingAncMode::Transparency => "Transparency".to_owned(),
        }
    }
}

/// Every mode survives a trip through its byte.
pub proof fn lemma_anc_mode_round_trip(mode: NothingAncMode)
    ensures
        NothingAncMode::from_byte_spec(mode.to_byte_spec()) == mode,
{
}

/// A byte survives a trip through its mode exactly when it is one of the six
/// bytes that `to_byte` produces.
pub proof fn lemma_anc_byte_round_trip(value: u8)
    ensures
        NothingAncMode::from_byte_spec(value).to_byte_spec() == value <==> (value == 0x01 || value
            == 0x02 || value == 0x03 || value == 0x04 || value == 0x05 || value == 0x07),
{
}

/// State of a connected Nothing accessory.
#[derive(Debug, Clone, Copy, PartialEq, Eq, Structural)]
pub struct NothingState {
    pub anc_mode: NothingAncMode,
}

/// Listening mode of an AirPods-class accessory.
#[derive(Debug, Clone, Copy, PartialEq, Eq, Structural)]
pub enum AirPodsNoiseControlMode {
    Off,
    NoiseCancellation,
    Transparency,
    Adaptive,
}

impl AirPodsNoiseControlMode {
    pub open spec fn from_byte_spec(value: u8) -> AirPodsNoiseControlMode {
        if value == 0x01 {
            AirPodsNoiseControlMode::Off
        } else if value == 0x02 {
            AirPodsNoiseControlMode::NoiseCancellation
        } else if value == 0x04 {
            AirPodsNoiseControlMode::Adaptive
        } else {
            AirPodsNoiseControlMode::Transparency
        }
    }

    pub open spec fn to_byte_spec(self) -> u8 {
        match self {
            AirPodsNoiseControlMode::Off => 0x01,
            AirPodsNoiseControlMode::NoiseCancellation => 0x02,
            AirPodsNoiseControlMode::Transparency => 0x03,
            AirPodsNoiseControlMode::Adaptive => 0x04,
        }
    }

    pub open spec fn label_spec(self) -> Seq<char> {
        match self {
            AirPodsNoiseControlMode::Off => "Off"@,
            AirPodsNoiseControlMode::NoiseCancellation => "Noise Cancellation"@,
            AirPodsNoiseControlMode::Transparency => "Transparency"@,
            AirPodsNoiseControlMode::Adaptive => "Adaptive"@,
        }
    }

    /// Decodes the value byte of the listening-mode setting. Every byte that
    /// names no mode reads as `Transparency`.
    pub fn from_byte(value: u8) -> (mode: Self)
        ensures
            mode == Self::from_byte_spec(value),
    {
        match value {
            0x01 => AirPodsNoiseControlMode::Off,
            0x02 => AirPodsNoiseControlMode::NoiseCancellation,
            0x04 => AirPodsNoiseControlMode::Adaptive,
            _ => AirPodsNoiseControlMode::Transparency,
        }
    }

    /// The value byte of the listening-mode setting for this mode.
    pub fn to_byte(&self) -> (value: u8)
        ensures
            value == self.to_byte_spec(),
    {
        match self {
            AirPodsNoiseControlMode::Off => 0x01,
            AirPodsNoiseControlMode::NoiseCancellation => 0x02,
            AirPodsNoiseControlMode::Transparency => 0x03,
            AirPodsNoiseControlMode::Adaptive => 0x04,
        }
    }

    /// Human-readable name of the mode.
    pub fn label(&self) -> (text: String)
        ensures
            text@ == self.label_spec(),
    {
        match self {
            AirPodsNoiseControlMode::Off => "Off".to_owned(),
            AirPodsNoiseControlMode::NoiseCancellation => "Noise Cancellation".to_owned(),
            AirPodsNoiseControlMode::Transparency => "Transparency".to_owned(),
            AirPodsNoiseControlMode::Adaptive => "Adaptive".to_owned(),
        }
    }
}

/// Every listening mode survives a trip through its byte.
pub proof fn lemma_noise_control_round_trip(mode: AirPodsNoiseControlMode)
    ensures
        AirPodsNoiseControlMode::from_byte_spec(mode.to_byte_spec()) == mode,
{
}

/// State of a connected AirPods-class accessory, as the window shows it.
#[derive(Debug, Clone)]
pub struct AirPodsState {
    pub device_name: String,
    pub battery: Vec<BatteryInfo>,
    pub noise_control_mode: AirPodsNoiseControlMode,
    pub conversation_awareness_enabled: bool,
    pub personalized_volume_enabled: bool,
    pub allow_off_mode: bool,
}

/// The state of an AirPods-class accessory over plain values.
pub struct AirPodsStateView {
    pub device_name: Seq<char>,
    pub battery: Seq<BatteryInfo>,
    pub noise_control_mode: AirPodsNoiseControlMode,
    pub conversation_awareness_enabled: bool,
    pub personalized_volume_enabled: bool,
    pub allow_off_mode: bool,
}

impl View for AirPodsState {
    type V = AirPodsStateView;

    open spec fn view(&self) -> AirPodsStateView {
        AirPodsStateView {
            device_name: self.device_name@,
            battery: self.battery@,
            noise_control_mode: self.noise_control_mode,
            conversation_awareness_enabled: self.conversation_awareness_enabled,
            personalized_volume_enabled: self.personalized_volume_enabled,
            allow_off_mode: self.allow_off_mode,
        }
    }
}

/// State of a connected device, by family.
#[derive(Debug, Clone)]
pub enum DeviceState {
    AirPods(AirPodsState),
    Nothing(NothingState),
}

impl DeviceState {
    pub open spec fn label_spec(self) -> Seq<char> {
        match self {
            DeviceState::AirPods(_) => "AirPods State"@,
            DeviceState::Nothing(_) => "Nothing State"@,
        }
    }

    /// Human-readable name of the kind of state.
    pub fn label(&self) -> (text: String)
        ensures
            text@ == self.label_spec(),
    {
        match self {
            DeviceState::AirPods(_) => "AirPods State".to_owned(),
            DeviceState::Nothing(_) => "Nothing State".to_owned(),
        }
    }
}

} // verus!
