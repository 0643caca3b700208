use crate::bluetooth::aacp::{BatteryComponent, BatteryInfo, BatteryStatus, ControlCommandIdentifiers};
use crate::bluetooth::le::LeTelemetry;
use vstd::prelude::*;

verus! {

/// What the tray icon shows: the plain values behind icon, tool tip and
/// menu.
#[derive(Debug, Clone, Copy, PartialEq, Eq, Structural)]
pub struct TrayState {
    pub conversation_detect_enabled: Option<bool>,
    pub battery_headphone: Option<u8>,
    pub battery_headphone_status: Option<BatteryStatus>,
    pub battery_l: Option<u8>,
    pub battery_l_status: Option<BatteryStatus>,
    pub battery_r: Option<u8>,
    pub battery_r_status: Option<BatteryStatus>,
    pub battery_c: Option<u8>,
    pub battery_c_status: Option<BatteryStatus>,
    pub connected: bool,
    pub listening_mode: Option<u8>,
    pub allow_off_option: Option<u8>,
}

/// The value byte of the conversation-detection setting that switches it on.
pub const CONVERSATION_DETECT_ON: u8 = 0x01;

/// The value byte of the conversation-detection setting that switches it
/// off.
pub const CONVERSATION_DETECT_OFF: u8 = 0x02;

/// The listening mode that the menu falls back to.
pub const DEFAULT_LISTENING_MODE: u8 = 0x02;

/// The level of a battery if it counts for the icon: a battery that is
/// known to be disconnected does not.
pub open spec fn counted_level(level: Option<u8>, status: Option<BatteryStatus>) -> Option<u8> {
    if status == Some(BatteryStatus::Disconnected) {
        None
    } else {
        level
    }
}

/// The lower of two optional levels.
pub open spec fn lower_level(a: Option<u8>, b: Option<u8>) -> Option<u8> {
    match (a, b) {
        (Some(x), Some(y)) => Some(if x <= y {
            x
        } else {
            y
        }),
        (Some(x), None) => Some(x),
        (None, b) => b,
    }
}

/// The values of the listening modes in the order of the menu. The mode
/// "off" is offered only if the accessory allows it.
pub open spec fn listening_mode_values(allow_off_option: Option<u8>) -> Seq<u8> {
    if allow_off_option == Some(0x01u8) {
        seq![0x01u8, 0x02u8, 0x03u8, 0x04u8]
    } else {
        seq![0x02u8, 0x03u8, 0x04u8]
    }
}

/// The name of a listening mode in the menu.
pub open spec fn listening_mode_label_spec(value: u8) -> Seq<char> {
    if value == 0x01 {
        "Off"@
    } else if value == 0x02 {
        "Noise Cancellation"@
    } else if value == 0x03 {
        "Transparency"@
    } else {
        "Adaptive"@
    }
}

/// The tray after one reading of a battery event. The tray follows the buds
/// and the case; a reading of the headphone component leaves it as it was.
pub open spec fn after_reading(tray: TrayState, reading: BatteryInfo) -> TrayState {
    match reading.component {
        BatteryComponent::Right => TrayState {
            battery_r: reading.level,
            battery_r_status: Some(reading.status),
            ..tray
        },
        BatteryComponent::Left => TrayState {
            battery_l: reading.level,
            battery_l_status: Some(reading.status),
            ..tray
        },
        BatteryComponent::Case => TrayState {
            battery_c: reading.level,
            battery_c_status: Some(reading.status),
            ..tray
        },
        BatteryComponent::Headphone => tray,
    }
}

/// The tray after the readings of a battery event, taken one after the
/// other.
pub open spec fn after_readings(tray: TrayState, readings: Seq<BatteryInfo>) -> TrayState
    decreases readings.len(),
{
    if readings.len() == 0 {
        tray
    } else {
        after_reading(after_readings(tray, readings.drop_last()), readings.last())
    }
}

/// The tray after a report of a setting: the first byte of the value is what
/// the tray keeps; a value without bytes, or another setting, changes
/// nothing.
pub open spec fn after_control_value(
    tray: TrayState,
    identifier: ControlCommandIdentifiers,
    value: Seq<u8>,
) -> TrayState {
    if value.len() == 0 {
        tray
    } else {
        match identifier {
            ControlCommandIdentifiers::ListeningMode => TrayState {
                listening_mode: Some(value[0]),
                ..tray
            },
            ControlCommandIdentifiers::AllowOffOption => TrayState {
                allow_off_option: Some(value[0]),
                ..tray
            },
            ControlCommandIdentifiers::ConversationDetectConfig => TrayState {
                conversation_detect_enabled: Some(value[0] == CONVERSATION_DETECT_ON),
                ..tray
            },
            _ => tray,
        }
    }
}

impl TrayState {
    /// A tray that knows nothing yet.
    pub fn new() -> (tray: Self)
        ensures
            tray == (TrayState {
                conversation_detect_enabled: None,
                battery_headphone: None,
                battery_headphone_status: None,
                battery_l: None,
                battery_l_status: None,
                battery_r: None,
                battery_r_status: None,
                battery_c: None,
                battery_c_status: None,
                connected: false,
                listening_mode: None,
                allow_off_option: None,
            }),
    {
        TrayState {
            conversation_detect_enabled: None,
            battery_headphone: None,
            battery_headphone_status: None,
            battery_l: None,
            battery_l_status: None,
            battery_r: None,
            battery_r_status: None,
            battery_c: None,
            battery_c_status: None,
            connected: false,
            listening_mode: None,
            allow_off_option: None,
        }
    }

    /// The level that the icon shows: that of the headphone if the tray
    /// knows one at all, else the lower one of the buds that count.
    pub open spec fn icon_level_spec(self) -> Option<u8> {
        if self.battery_headphone is Some {
            counted_level(self.battery_headphone, self.battery_headphone_status)
        } else {
            lower_level(
                counted_level(self.battery_l, self.battery_l_status),
                counted_level(self.battery_r, self.battery_r_status),
            )
        }
    }

    /// Whether the icon shows the charging mark: one of the buds charges.
    pub open spec fn any_bud_charging_spec(self) -> bool {
        self.battery_l_status == Some(BatteryStatus::Charging) || self.battery_r_status == Some(
            BatteryStatus::Charging,
        )
    }

    /// The entry of the menu that is selected: that of the listening mode,
    /// or the first one if the mode is unknown or not in the menu.
    pub open spec fn selected_option_spec(self) -> int {
        let values = listening_mode_values(self.allow_off_option);
        match self.listening_mode {
            Some(mode) => if values[0] <= mode <= 0x04 {
                mode - values[0]
            } else {
                0
            },
            None => 0,
        }
    }

    /// The level that the icon shows.
    pub fn icon_level(&self) -> (level: Option<u8>)
        ensures
            level == self.icon_level_spec(),
    {
        if self.battery_headphone.is_some() {
            level_if_counted(self.battery_headphone, self.battery_headphone_status)
        } else {
            let left = level_if_counted(self.battery_l, self.battery_l_status);
            let right = level_if_counted(self.battery_r, self.battery_r_status);
            match (left, right) {
                (Some(x), Some(y)) => Some(if x <= y {
                    x
                } else {
                    y
                }),
                (Some(x), None) => Some(x),
                (None, other) => other,
            }
        }
    }

    /// Whether the icon shows the charging mark.
    pub fn any_bud_charging(&self) -> (charging: bool)
        ensures
            charging == self.any_bud_charging_spec(),
    {
        is_charging(self.battery_l_status) || is_charging(self.battery_r_status)
    }

    /// The values of the listening modes in the order of the menu.
    pub fn listening_mode_options(&self) -> (values: Vec<u8>)
        ensures
            values@ == listening_mode_values(self.allow_off_option),
    {
        let allow_off = match self.allow_off_option {
            Some(value) => value == 0x01,
            None => false,
        };
        let values: Vec<u8> = if allow_off {
            vec![0x01u8, 0x02u8, 0x03u8, 0x04u8]
        } else {
            vec![0x02u8, 0x03u8, 0x04u8]
        };
        assert(values@ =~= listening_mode_values(self.allow_off_option));
        values
    }

    /// The entry of the menu that is selected.
    pub fn selected_option(&self) -> (index: usize)
        ensures
            index == self.selected_option_spec(),
    {
        let values = self.listening_mode_options();
        let mode = match self.listening_mode {
            Some(mode) => mode,
            None => {
                return 0;
            },
        };
        let mut i: usize = 0;
        assert(forall|j: int| 0 <= j < values@.len() ==> #[trigger] values@[j] == values@[0] + j);
        assert(values@[0] + values@.len() == 5);
        while i < values.len()
            invariant
                i <= values@.len(),
                values@.len() > 0,
                self.listening_mode == Some(mode),
                values@ == listening_mode_values(self.allow_off_option),
                values@[0] + values@.len() == 5,
                forall|j: int| 0 <= j < values@.len() ==> #[trigger] values@[j] == values@[0] + j,
                forall|j: int| 0 <= j < i ==> #[trigger] values@[j] != mode,
            decreases values@.len() - i,
        {
            if values[i] == mode {
                assert(values@[i as int] == values@[0] + i);
                assert(listening_mode_values(self.allow_off_option)[0] == values@[0]);
                return i;
            }
            i += 1;
        }
        proof {
            assert(listening_mode_values(self.allow_off_option)[0] == values@[0]);
            if values@[0] <= mode <= 0x04 {
                assert(values@[mode - values@[0]] == mode);
            }
        }
        0
    }

    /// The value that choosing an entry of the menu sends: that of the
    /// entry, or noise cancellation if the menu has no such entry.
    pub fn option_value(&self, current: usize) -> (value: u8)
        ensures
            value == if current < listening_mode_values(self.allow_off_option).len() {
                listening_mode_values(self.allow_off_option)[current as int]
            } else {
                DEFAULT_LISTENING_MODE
            },
    {
        let values = self.listening_mode_options();
        if current < values.len() {
            values[current]
        } else {
            DEFAULT_LISTENING_MODE
        }
    }

    /// Flips the conversation-detection switch, if its state is known, and
    /// says which value to send.
    pub fn toggle_conversation_detect(&mut self) -> (value: Option<u8>)
        ensures
            match old(self).conversation_detect_enabled {
                Some(enabled) => {
                    &&& *final(self) == (TrayState {
                        conversation_detect_enabled: Some(!enabled),
                        ..*old(self)
                    })
                    &&& value == Some(
                        if enabled {
                            CONVERSATION_DETECT_OFF
                        } else {
                            CONVERSATION_DETECT_ON
                        },
                    )
                },
                None => *final(self) == *old(self) && value is None,
            },
    {
        match self.conversation_detect_enabled {
            Some(enabled) => {
                self.conversation_detect_enabled = Some(!enabled);
                Some(if enabled {
                    CONVERSATION_DETECT_OFF
                } else {
                    CONVERSATION_DETECT_ON
                })
            },
            None => None,
        }
    }

    /// Takes the batteries and nothing else from an advertisement.
    pub fn apply_le_telemetry(&mut self, telemetry: &LeTelemetry)
        ensures
            *final(self) == (TrayState {
                battery_l: telemetry.left.level,
                battery_l_status: Some(telemetry.left.status),
                battery_r: telemetry.right.level,
                battery_r_status: Some(telemetry.right.status),
                battery_c: telemetry.case.level,
                battery_c_status: Some(telemetry.case.status),
                ..*old(self)
            }),
    {
        self.battery_l = telemetry.left.level;
        self.battery_l_status = Some(telemetry.left.status);
        self.battery_r = telemetry.right.level;
        self.battery_r_status = Some(telemetry.right.status);
        self.battery_c = telemetry.case.level;
        self.battery_c_status = Some(telemetry.case.status);
    }

    /// Takes the readings of a battery event.
    pub fn apply_battery_info(&mut self, readings: &Vec<BatteryInfo>)
        ensures
            *final(self) == after_readings(*old(self), readings@),
    {
        let mut i: usize = 0;
        assert(readings@.take(0) =~= Seq::<BatteryInfo>::empty());
        while i < readings.len()
            invariant
                i <= readings@.len(),
                *self == after_readings(*old(self), readings@.take(i as int)),
            decreases readings@.len() - i,
        {
            let reading = readings[i];
            proof {
                assert(readings@.take(i + 1).drop_last() =~= readings@.take(i as int));
                assert(readings@.take(i + 1).last() == reading);
            }
            match reading.component {
                BatteryComponent::Right => {
                    self.battery_r = reading.level;
                    self.battery_r_status = Some(reading.status);
                },
                BatteryComponent::Left => {
                    self.battery_l = reading.level;
                    self.battery_l_status = Some(reading.status);
                },
                BatteryComponent::Case => {
                    self.battery_c = reading.level;
                    self.battery_c_status = Some(reading.status);
                },
                BatteryComponent::Headphone => {},
            }
            i += 1;
        }
        assert(readings@.take(i as int) =~= readings@);
    }

    /// Takes a report of a setting.
    pub fn apply_control_value(&mut self, identifier: ControlCommandIdentifiers, value: &[u8])
        ensures
            *final(self) == after_control_value(*old(self), identifier, value@),
    {
        if value.len() == 0 {
            return ;
        }
        match identifier {
            ControlCommandIdentifiers::ListeningMode => {
                self.listening_mode = Some(value[0]);
            },
            ControlCommandIdentifiers::AllowOffOption => {
                self.allow_off_option = Some(value[0]);
            },
            ControlCommandIdentifiers::ConversationDetectConfig => {
                self.conversation_detect_enabled = Some(value[0] == CONVERSATION_DETECT_ON);
            },
            _ => {},
        }
    }
}

/// The settings whose reports the tray follows.
pub open spec fn followed_settings() -> Seq<ControlCommandIdentifiers> {
    seq![
        ControlCommandIdentifiers::ListeningMode,
        ControlCommandIdentifiers::AllowOffOption,
        ControlCommandIdentifiers::ConversationDetectConfig,
    ]
}

/// Lists the settings for which the tray is to be registered as a listener.
pub fn tray_settings() -> (settings: Vec<ControlCommandIdentifiers>)
    ensures
        settings@ == followed_settings(),
{
    let settings: Vec<ControlCommandIdentifiers> = vec![
        ControlCommandIdentifiers::ListeningMode,
        ControlCommandIdentifiers::AllowOffOption,
        ControlCommandIdentifiers::ConversationDetectConfig,
    ];
    assert(settings@ =~= followed_settings());
    settings
}

/// The tray changes with its own settings only: a report of any other
/// setting, or one without a value, leaves it as it was.
pub proof fn lemma_tray_follows_its_settings(
    tray: TrayState,
    identifier: ControlCommandIdentifiers,
    value: Seq<u8>,
)
    requires
        !followed_settings().contains(identifier) || value.len() == 0,
    ensures
        after_control_value(tray, identifier, value) == tray,
{
    if value.len() > 0 {
        assert(followed_settings()[0] == ControlCommandIdentifiers::ListeningMode);
        assert(followed_settings()[1] == ControlCommandIdentifiers::AllowOffOption);
        assert(followed_settings()[2] == ControlCommandIdentifiers::ConversationDetectConfig);
    }
}

/// The level of a battery if it counts for the icon.
pub fn level_if_counted(level: Option<u8>, status: Option<BatteryStatus>) -> (counted: Option<u8>)
    ensures
        counted == counted_level(level, status),
{
    match status {
        Some(BatteryStatus::Disconnected) => None,
        _ => level,
    }
}

/// Tells whether a status is that of a charging battery.
pub fn is_charging(status: Option<BatteryStatus>) -> (charging: bool)
    ensures
        charging == (status == Some(BatteryStatus::Charging)),
{
    match status {
        Some(BatteryStatus::Charging) => true,
        _ => false,
    }
}

/// The name of a listening mode in the menu.
pub fn listening_mode_label(value: u8) -> (label: String)
    ensures
        label@ == listening_mode_label_spec(value),
{
    match value {
        0x01 => "Off".to_owned(),
        0x02 => "Noise Cancellation".to_owned(),
        0x03 => "Transparency".to_owned(),
        _ => "Adaptive".to_owned(),
    }
}

} // verus!
