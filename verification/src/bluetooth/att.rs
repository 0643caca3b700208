use crate::devices::enums::NothingAncMode;
use vstd::prelude::*;

verus! {

/// One session with a Nothing accessory: the noise-cancellation mode that
/// the accessory is known to be in.
#[derive(Debug, Clone, Copy, PartialEq, Eq, Structural)]
pub struct ATTManager {
    pub anc_mode: NothingAncMode,
}

impl ATTManager {
    /// A session that has heard nothing yet: the mode counts as off.
    pub fn new() -> (manager: Self)
        ensures
            manager.anc_mode == NothingAncMode::Off,
    {
        ATTManager { anc_mode: NothingAncMode::Off }
    }

    /// Takes in the mode byte that the accessory reported.
    pub fn note_mode_byte(&mut self, byte: u8)
        ensures
            final(self).anc_mode == NothingAncMode::from_byte_spec(byte),
    {
        self.anc_mode = NothingAncMode::from_byte(byte);
    }

    /// The byte to write to the accessory to switch it to a mode.
    pub fn mode_byte(mode: NothingAncMode) -> (byte: u8)
        ensures
            byte == mode.to_byte_spec(),
    {
        mode.to_byte()
    }
}

} // verus!
