use crate::bluetooth::aacp::{
    bytes_result_view, control_command_packet, control_command_payload_spec, encode_spec,
    rename_packet, AACPEvent, ControlCommandIdentifiers, FormatError, Opcode,
};
use crate::devices::enums::NothingAncMode;
use vstd::prelude::*;
use vstd::utf8::encode_utf8;

verus! {

/// What the Bluetooth side tells the window.
#[derive(Debug, Clone)]
pub enum BluetoothUIMessage {
    OpenWindow,
    /// A device, named by its address, has connected.
    DeviceConnected(String),
    /// A device, named by its address, has disconnected.
    DeviceDisconnected(String),
    /// An event of the accessory with the given address.
    AACPUIEvent(String, AACPEvent),
    /// A notification of the device with the given address: handle, data.
    ATTNotification(String, u16, Vec<u8>),
    NoOp,
}

/// What the window asks of a device.
#[derive(Debug, Clone)]
pub enum UICommand {
    AirPods(AirPodsCommand),
    Nothing(NothingCommand),
}

/// What the window asks of an AirPods-class accessory. The first field is
/// the address of the accessory.
#[derive(Debug, Clone)]
pub enum AirPodsCommand {
    SetControlCommandStatus(String, ControlCommandIdentifiers, Vec<u8>),
    RenameDevice(String, String),
}

/// What the window asks of a Nothing accessory. The first field is the
/// address of the accessory.
#[derive(Debug, Clone)]
pub enum NothingCommand {
    SetNoiseCancellationMode(String, NothingAncMode),
}

impl AirPodsCommand {
    /// The packet that carries the command out, or the reason why it cannot
    /// be framed.
    pub open spec fn packet_spec(self) -> Result<Seq<u8>, FormatError> {
        match self {
            AirPodsCommand::SetControlCommandStatus(_, identifier, value) => encode_spec(
                Opcode::ControlCommand,
                control_command_payload_spec(identifier, value@),
            ),
            AirPodsCommand::RenameDevice(_, name) => encode_spec(
                Opcode::Rename,
                encode_utf8(name@),
            ),
        }
    }

    /// Frames the command for the wire.
    pub fn packet(&self) -> (packet: Result<Vec<u8>, FormatError>)
        ensures
            bytes_result_view(packet) == self.packet_spec(),
    {
        match self {
            AirPodsCommand::SetControlCommandStatus(_, identifier, value) => {
                control_command_packet(*identifier, value.as_slice())
            },
            AirPodsCommand::RenameDevice(_, name) => rename_packet(name.as_str()),
        }
    }
}

impl NothingCommand {
    /// The byte that carries the command out.
    pub fn mode_byte(&self) -> (byte: u8)
        ensures
            self matches NothingCommand::SetNoiseCancellationMode(_, mode) && byte
                == mode.to_byte_spec(),
    {
        match self {
            NothingCommand::SetNoiseCancellationMode(_, mode) => mode.to_byte(),
        }
    }
}

} // verus!
