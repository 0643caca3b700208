use crate::bluetooth::aacp::{
    AACPEvent, BatteryComponent, BatteryInfo, ControlCommandIdentifiers, ControlCommandStatus,
    ControlCommandStatusView, EventView,
};
use crate::bluetooth::router::{copy_list, position_of, AACPManagerState, SessionView};
use crate::devices::enums::{
    AirPodsNoiseControlMode, AirPodsState, AirPodsStateView, NothingAncMode,
};
use vstd::prelude::*;

verus! {

/// What the window knows of the Bluetooth side: the addresses of the devices
/// that have connected, each once, in the order in which they did.
pub struct BluetoothState {
    connected_devices: Vec<String>,
}

impl View for BluetoothState {
    type V = Seq<Seq<char>>;

    closed spec fn view(&self) -> Seq<Seq<char>> {
        self.connected_devices@.map_values(|mac: String| mac@)
    }
}

/// The list of connected devices after one more has connected.
pub open spec fn with_device(devices: Seq<Seq<char>>, mac: Seq<char>) -> Seq<Seq<char>> {
    if devices.contains(mac) {
        devices
    } else {
        devices.push(mac)
    }
}

impl BluetoothState {
    /// A state without connected devices.
    pub fn new() -> (state: Self)
        ensures
            state@ == Seq::<Seq<char>>::empty(),
    {
        let state = Self { connected_devices: Vec::new() };
        assert(state@ =~= Seq::<Seq<char>>::empty());
        state
    }

    /// Tells whether the device with the address has connected.
    pub fn is_connected(&self, mac: &String) -> (connected: bool)
        ensures
            connected == self@.contains(mac@),
    {
        let mut i: usize = 0;
        while i < self.connected_devices.len()
            invariant
                i <= self.connected_devices@.len(),
                forall|j: int| 0 <= j < i ==> self@[j] != mac@,
            decreases self.connected_devices@.len() - i,
        {
            assert(self@[i as int] == self.connected_devices@[i as int]@);
            if self.connected_devices[i] == *mac {
                return true;
            }
            i += 1;
        }
        false
    }

    /// Notes that a device has connected. Returns whether it is new to the
    /// list.
    pub fn device_connected(&mut self, mac: String) -> (added: bool)
        ensures
            final(self)@ == with_device(old(self)@, mac@),
            added == !old(self)@.contains(mac@),
    {
        if self.is_connected(&mac) {
            return false;
        }
        self.connected_devices.push(mac);
        assert(final(self)@ =~= old(self)@.push(mac@));
        true
    }

    /// How many devices have connected.
    pub fn len(&self) -> (count: usize)
        ensures
            count == self@.len(),
    {
        self.connected_devices.len()
    }
}

/// What the content pane shows.
#[derive(Clone, Debug, PartialEq, Eq, Hash)]
pub enum Tab {
    /// The device with the given address.
    Device(String),
    Settings,
    AddDevice,
}

/// The two panes of the window.
#[derive(Clone, Copy)]
pub enum Pane {
    Sidebar,
    Content,
}

/// The latest value of a setting, if the accessory has reported one.
pub open spec fn status_value_spec(
    list: Seq<ControlCommandStatusView>,
    identifier: ControlCommandIdentifiers,
) -> Option<Seq<u8>> {
    let position = position_of(list, identifier);
    if position < list.len() {
        Some(list[position].value)
    } else {
        None
    }
}

/// Whether a value switches a setting on: only the single byte 1 does.
pub open spec fn enables_spec(value: Seq<u8>) -> bool {
    value == seq![0x01u8]
}

/// The listening mode that a value names: its first byte decides, a value
/// without bytes names `Transparency`.
pub open spec fn mode_of_value(value: Seq<u8>) -> AirPodsNoiseControlMode {
    if value.len() > 0 {
        AirPodsNoiseControlMode::from_byte_spec(value[0])
    } else {
        AirPodsNoiseControlMode::Transparency
    }
}

/// Whether the session has seen a setting switched on.
pub open spec fn setting_enabled(
    session: SessionView,
    identifier: ControlCommandIdentifiers,
) -> bool {
    match status_value_spec(session.control_status, identifier) {
        Some(value) => enables_spec(value),
        None => false,
    }
}

/// What the window shows of an accessory that has just connected: the
/// battery readings of the session, the listening mode that the session has
/// seen, or `Transparency` if it has seen none, and each switch as the
/// session has seen it, or off.
pub open spec fn airpods_state_spec(device_name: Seq<char>, session: SessionView) -> AirPodsStateView {
    AirPodsStateView {
        device_name,
        battery: session.battery,
        noise_control_mode: match status_value_spec(
            session.control_status,
            ControlCommandIdentifiers::ListeningMode,
        ) {
            Some(value) => mode_of_value(value),
            None => AirPodsNoiseControlMode::Transparency,
        },
        conversation_awareness_enabled: setting_enabled(
            session,
            ControlCommandIdentifiers::ConversationDetectConfig,
        ),
        personalized_volume_enabled: setting_enabled(
            session,
            ControlCommandIdentifiers::AdaptiveVolumeConfig,
        ),
        allow_off_mode: setting_enabled(session, ControlCommandIdentifiers::AllowOffOption),
    }
}

/// What the window shows after an event: a report of one of the four
/// settings it shows changes that setting, a battery event replaces the
/// readings, anything else changes nothing.
pub open spec fn airpods_state_after(state: AirPodsStateView, event: EventView) -> AirPodsStateView {
    match event {
        EventView::ControlCommand(status) => match status.identifier {
            ControlCommandIdentifiers::ListeningMode => AirPodsStateView {
                noise_control_mode: mode_of_value(status.value),
                ..state
            },
            ControlCommandIdentifiers::ConversationDetectConfig => AirPodsStateView {
                conversation_awareness_enabled: enables_spec(status.value),
                ..state
            },
            ControlCommandIdentifiers::AdaptiveVolumeConfig => AirPodsStateView {
                personalized_volume_enabled: enables_spec(status.value),
                ..state
            },
            ControlCommandIdentifiers::AllowOffOption => AirPodsStateView {
                allow_off_mode: enables_spec(status.value),
                ..state
            },
            _ => state,
        },
        EventView::BatteryInfo(readings) => AirPodsStateView { battery: readings, ..state },
        _ => state,
    }
}

/// The listening modes that the window offers: `Off` comes first, and only
/// if the accessory allows it.
pub open spec fn noise_control_options_spec(allow_off: bool) -> Seq<AirPodsNoiseControlMode> {
    if allow_off {
        seq![
            AirPodsNoiseControlMode::Off,
            AirPodsNoiseControlMode::Transparency,
            AirPodsNoiseControlMode::NoiseCancellation,
            AirPodsNoiseControlMode::Adaptive,
        ]
    } else {
        seq![
            AirPodsNoiseControlMode::Transparency,
            AirPodsNoiseControlMode::NoiseCancellation,
            AirPodsNoiseControlMode::Adaptive,
        ]
    }
}

/// The modes that the window offers for a Nothing accessory.
pub open spec fn nothing_mode_options_spec() -> Seq<NothingAncMode> {
    seq![
        NothingAncMode::Off,
        NothingAncMode::Transparency,
        NothingAncMode::AdaptiveNoiseCancellation,
        NothingAncMode::LowNoiseCancellation,
        NothingAncMode::MidNoiseCancellation,
        NothingAncMode::HighNoiseCancellation,
    ]
}

/// The first reading of a component.
pub open spec fn reading_of(readings: Seq<BatteryInfo>, component: BatteryComponent) -> Option<
    BatteryInfo,
>
    decreases readings.len(),
{
    if readings.len() == 0 {
        None
    } else if readings[0].component == component {
        Some(readings[0])
    } else {
        reading_of(readings.subrange(1, readings.len() as int), component)
    }
}

/// Tells whether a value switches a setting on.
pub fn enables(value: &Vec<u8>) -> (enabled: bool)
    ensures
        enabled == enables_spec(value@),
{
    let enabled = value.len() == 1 && value[0] == 0x01;
    proof {
        if enabled {
            assert(value@ =~= seq![0x01u8]);
        } else if value@.len() == 1 {
            assert(seq![0x01u8][0] == 0x01u8);
        } else {
            assert(seq![0x01u8].len() == 1);
        }
    }
    enabled
}

/// Names the listening mode of a value.
pub fn listening_mode_of(value: &Vec<u8>) -> (mode: AirPodsNoiseControlMode)
    ensures
        mode == mode_of_value(value@),
{
    if value.len() > 0 {
        AirPodsNoiseControlMode::from_byte(value[0])
    } else {
        AirPodsNoiseControlMode::Transparency
    }
}

/// Tells whether the session has seen a setting switched on.
pub fn is_setting_enabled(session: &AACPManagerState, identifier: ControlCommandIdentifiers) -> (enabled:
    bool)
    ensures
        enabled == setting_enabled(session@, identifier),
{
    match session.status_value(identifier) {
        Some(value) => enables(&value),
        None => false,
    }
}

/// Builds what the window shows of an accessory that has just connected.
pub fn airpods_state_from(device_name: String, session: &AACPManagerState) -> (state: AirPodsState)
    ensures
        state@ == airpods_state_spec(device_name@, session@),
{
    let noise_control_mode = match session.status_value(ControlCommandIdentifiers::ListeningMode) {
        Some(value) => listening_mode_of(&value),
        None => AirPodsNoiseControlMode::Transparency,
    };
    AirPodsState {
        device_name,
        battery: session.battery_info(),
        noise_control_mode,
        conversation_awareness_enabled: is_setting_enabled(
            session,
            ControlCommandIdentifiers::ConversationDetectConfig,
        ),
        personalized_volume_enabled: is_setting_enabled(
            session,
            ControlCommandIdentifiers::AdaptiveVolumeConfig,
        ),
        allow_off_mode: is_setting_enabled(session, ControlCommandIdentifiers::AllowOffOption),
    }
}

/// Takes an event of the accessory into what the window shows.
pub fn apply_aacp_event(state: &mut AirPodsState, event: &AACPEvent)
    ensures
        final(state)@ == airpods_state_after(old(state)@, event@),
{
    match event {
        AACPEvent::ControlCommand(status) => match status.identifier {
            ControlCommandIdentifiers::ListeningMode => {
                state.noise_control_mode = listening_mode_of(&status.value);
            },
            ControlCommandIdentifiers::ConversationDetectConfig => {
                state.conversation_awareness_enabled = enables(&status.value);
            },
            ControlCommandIdentifiers::AdaptiveVolumeConfig => {
                state.personalized_volume_enabled = enables(&status.value);
            },
            ControlCommandIdentifiers::AllowOffOption => {
                state.allow_off_mode = enables(&status.value);
            },
            _ => {},
        },
        AACPEvent::BatteryInfo(readings) => {
            state.battery = copy_list(readings);
        },
        _ => {},
    }
}

/// What the user asks of an AirPods-class accessory in the window.
#[derive(Debug, Clone, Copy, PartialEq, Eq, Structural)]
pub enum AirPodsChoice {
    ConversationAwareness(bool),
    PersonalizedVolume(bool),
    NoiseControlMode(AirPodsNoiseControlMode),
}

/// The value byte that puts a switch in a position: 1 switches on, 2 off.
pub open spec fn switch_value(enabled: bool) -> u8 {
    if enabled {
        0x01
    } else {
        0x02
    }
}

/// The setting that carries a choice out, and the value it is set to.
pub open spec fn choice_setting(choice: AirPodsChoice) -> ControlCommandStatusView {
    match choice {
        AirPodsChoice::ConversationAwareness(enabled) => ControlCommandStatusView {
            identifier: ControlCommandIdentifiers::ConversationDetectConfig,
            value: seq![switch_value(enabled)],
        },
        AirPodsChoice::PersonalizedVolume(enabled) => ControlCommandStatusView {
            identifier: ControlCommandIdentifiers::AdaptiveVolumeConfig,
            value: seq![switch_value(enabled)],
        },
        AirPodsChoice::NoiseControlMode(mode) => ControlCommandStatusView {
            identifier: ControlCommandIdentifiers::ListeningMode,
            value: seq![mode.to_byte_spec()],
        },
    }
}

/// What the window shows once the user has chosen.
pub open spec fn airpods_state_chosen(state: AirPodsStateView, choice: AirPodsChoice) -> AirPodsStateView {
    match choice {
        AirPodsChoice::ConversationAwareness(enabled) => AirPodsStateView {
            conversation_awareness_enabled: enabled,
            ..state
        },
        AirPodsChoice::PersonalizedVolume(enabled) => AirPodsStateView {
            personalized_volume_enabled: enabled,
            ..state
        },
        AirPodsChoice::NoiseControlMode(mode) => AirPodsStateView {
            noise_control_mode: mode,
            ..state
        },
    }
}

/// Takes a choice of the user into what the window shows, and says which
/// setting of the accessory to set to which value.
pub fn apply_choice(state: &mut AirPodsState, choice: AirPodsChoice) -> (setting:
    ControlCommandStatus)
    ensures
        final(state)@ == airpods_state_chosen(old(state)@, choice),
        setting@ == choice_setting(choice),
{
    let (identifier, byte): (ControlCommandIdentifiers, u8) = match choice {
        AirPodsChoice::ConversationAwareness(enabled) => {
            state.conversation_awareness_enabled = enabled;
            (ControlCommandIdentifiers::ConversationDetectConfig, switch_byte(enabled))
        },
        AirPodsChoice::PersonalizedVolume(enabled) => {
            state.personalized_volume_enabled = enabled;
            (ControlCommandIdentifiers::AdaptiveVolumeConfig, switch_byte(enabled))
        },
        AirPodsChoice::NoiseControlMode(mode) => {
            state.noise_control_mode = mode;
            (ControlCommandIdentifiers::ListeningMode, mode.to_byte())
        },
    };
    let value: Vec<u8> = vec![byte];
    assert(value@ =~= seq![byte]);
    ControlCommandStatus { identifier, value }
}

/// The value byte that puts a switch in a position.
pub fn switch_byte(enabled: bool) -> (byte: u8)
    ensures
        byte == switch_value(enabled),
{
    if enabled {
        0x01
    } else {
        0x02
    }
}

/// What the window shows after a choice is what it shows once the accessory
/// has reported the setting back: the report changes nothing.
pub proof fn lemma_choice_agrees_with_report(state: AirPodsStateView, choice: AirPodsChoice)
    ensures
        airpods_state_after(
            airpods_state_chosen(state, choice),
            EventView::ControlCommand(choice_setting(choice)),
        ) == airpods_state_chosen(state, choice),
        airpods_state_after(state, EventView::ControlCommand(choice_setting(choice)))
            == airpods_state_chosen(state, choice),
{
    match choice {
        AirPodsChoice::ConversationAwareness(enabled) => {
            assert(seq![switch_value(enabled)][0] == switch_value(enabled));
            assert(enabled ==> seq![switch_value(enabled)] =~= seq![0x01u8]);
        },
        AirPodsChoice::PersonalizedVolume(enabled) => {
            assert(seq![switch_value(enabled)][0] == switch_value(enabled));
            assert(enabled ==> seq![switch_value(enabled)] =~= seq![0x01u8]);
        },
        AirPodsChoice::NoiseControlMode(mode) => {
            assert(seq![mode.to_byte_spec()][0] == mode.to_byte_spec());
        },
    }
}

/// Lists the listening modes that the window offers.
pub fn noise_control_options(allow_off: bool) -> (modes: Vec<AirPodsNoiseControlMode>)
    ensures
        modes@ == noise_control_options_spec(allow_off),
{
    let mut modes: Vec<AirPodsNoiseControlMode> = vec![
        AirPodsNoiseControlMode::Transparency,
        AirPodsNoiseControlMode::NoiseCancellation,
        AirPodsNoiseControlMode::Adaptive,
    ];
    if allow_off {
        modes.insert(0, AirPodsNoiseControlMode::Off);
    }
    assert(modes@ =~= noise_control_options_spec(allow_off));
    modes
}

/// Lists the modes that the window offers for a Nothing accessory.
pub fn nothing_mode_options() -> (modes: Vec<NothingAncMode>)
    ensures
        modes@ == nothing_mode_options_spec(),
{
    let modes: Vec<NothingAncMode> = vec![
        NothingAncMode::Off,
        NothingAncMode::Transparency,
        NothingAncMode::AdaptiveNoiseCancellation,
        NothingAncMode::LowNoiseCancellation,
        NothingAncMode::MidNoiseCancellation,
        NothingAncMode::HighNoiseCancellation,
    ];
    assert(modes@ =~= nothing_mode_options_spec());
    modes
}

/// Finds the first reading of a component.
pub fn find_reading(readings: &Vec<BatteryInfo>, component: BatteryComponent) -> (reading: Option<
    BatteryInfo,
>)
    ensures
        reading == reading_of(readings@, component),
{
    let mut i: usize = 0;
    assert(readings@.subrange(0, readings@.len() as int) =~= readings@);
    while i < readings.len()
        invariant
            i <= readings@.len(),
            reading_of(readings@, component) == reading_of(
                readings@.subrange(i as int, readings@.len() as int),
                component,
            ),
        decreases readings@.len() - i,
    {
        let ghost rest = readings@.subrange(i as int, readings@.len() as int);
        assert(rest[0] == readings@[i as int]);
        assert(rest.subrange(1, rest.len() as int) =~= readings@.subrange(
            i + 1,
            readings@.len() as int,
        ));
        if readings[i].component == component {
            return Some(readings[i]);
        }
        i += 1;
    }
    None
}

} // verus!
