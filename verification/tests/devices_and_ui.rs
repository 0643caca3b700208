use librepods::bluetooth::aacp::{
    encode, AACPEvent, BatteryComponent, BatteryInfo, BatteryStatus, ControlCommandIdentifiers,
    ControlCommandStatus, FormatError, Opcode,
};
use librepods::bluetooth::att::ATTManager;
use librepods::bluetooth::le::{LeBattery, LeTelemetry};
use librepods::bluetooth::manager::AACPManager;
use librepods::bluetooth::managers::{BluetoothDevices, BluetoothManager, DeviceManagers};
use librepods::devices::enums::{
    AirPodsNoiseControlMode, AirPodsState, DeviceData, DeviceState, DeviceType, NothingAncMode,
    NothingState,
};
use librepods::ui::messages::{AirPodsCommand, BluetoothUIMessage, NothingCommand, UICommand};
use librepods::ui::tray::{
    is_charging, level_if_counted, listening_mode_label, tray_settings, TrayState,
};
use librepods::ui::window::{
    airpods_state_from, apply_aacp_event, apply_choice, enables, find_reading,
    listening_mode_of, noise_control_options, nothing_mode_options, switch_byte, AirPodsChoice,
    BluetoothState, Pane, Tab,
};

const LOCAL: [u8; 6] = [0; 6];

fn session_with(frames: &[(Opcode, Vec<u8>)]) -> AACPManager {
    let mut manager = AACPManager::new();
    for (opcode, payload) in frames {
        manager.receive(&encode(*opcode, payload).unwrap(), &LOCAL);
    }
    manager
}

#[test]
fn nothing_anc_mode_bytes() {
    let pairs = [
        (NothingAncMode::LowNoiseCancellation, 0x03u8),
        (NothingAncMode::MidNoiseCancellation, 0x02),
        (NothingAncMode::HighNoiseCancellation, 0x01),
        (NothingAncMode::AdaptiveNoiseCancellation, 0x04),
        (NothingAncMode::Transparency, 0x07),
        (NothingAncMode::Off, 0x05),
    ];
    for (mode, byte) in pairs {
        assert_eq!(mode.to_byte(), byte);
        assert_eq!(NothingAncMode::from_byte(byte), mode);
    }
    assert_eq!(NothingAncMode::from_byte(0x00), NothingAncMode::Off);
    assert_eq!(NothingAncMode::from_byte(0x06), NothingAncMode::Off);
    assert_eq!(NothingAncMode::from_byte(0xFF), NothingAncMode::Off);
}

#[test]
fn labels() {
    assert_eq!(DeviceType::AirPods.label(), "AirPods");
    assert_eq!(DeviceType::Nothing.label(), "Nothing");
    assert_eq!(NothingAncMode::Off.label(), "Off");
    assert_eq!(NothingAncMode::LowNoiseCancellation.label(), "Low Noise Cancellation");
    assert_eq!(NothingAncMode::MidNoiseCancellation.label(), "Mid Noise Cancellation");
    assert_eq!(NothingAncMode::HighNoiseCancellation.label(), "High Noise Cancellation");
    assert_eq!(NothingAncMode::AdaptiveNoiseCancellation.label(), "Adaptive Noise Cancellation");
    assert_eq!(NothingAncMode::Transparency.label(), "Transparency");
    let nothing = DeviceState::Nothing(NothingState { anc_mode: NothingAncMode::Off });
    assert_eq!(nothing.label(), "Nothing State");
    assert_eq!(AirPodsNoiseControlMode::NoiseCancellation.label(), "Noise Cancellation");
    assert_eq!(listening_mode_label(1), "Off");
    assert_eq!(listening_mode_label(2), "Noise Cancellation");
    assert_eq!(listening_mode_label(3), "Transparency");
    assert_eq!(listening_mode_label(4), "Adaptive");
}

#[test]
fn airpods_noise_control_mode_bytes() {
    assert_eq!(AirPodsNoiseControlMode::from_byte(1), AirPodsNoiseControlMode::Off);
    assert_eq!(AirPodsNoiseControlMode::from_byte(2), AirPodsNoiseControlMode::NoiseCancellation);
    assert_eq!(AirPodsNoiseControlMode::from_byte(3), AirPodsNoiseControlMode::Transparency);
    assert_eq!(AirPodsNoiseControlMode::from_byte(4), AirPodsNoiseControlMode::Adaptive);
    assert_eq!(AirPodsNoiseControlMode::from_byte(0), AirPodsNoiseControlMode::Transparency);
    assert_eq!(AirPodsNoiseControlMode::from_byte(9), AirPodsNoiseControlMode::Transparency);
    assert_eq!(AirPodsNoiseControlMode::Adaptive.to_byte(), 4);
    assert_eq!(AirPodsNoiseControlMode::Off.to_byte(), 1);
}

#[test]
fn device_data_holds_plain_values() {
    let data = DeviceData { name: "Pods".to_string(), type_: DeviceType::AirPods, information: None };
    let copy = data.clone();
    assert_eq!(copy.name, "Pods");
    assert_eq!(copy.type_, DeviceType::AirPods);
    assert!(copy.information.is_none());
}

#[test]
fn device_managers_hold_one_session_of_each_kind() {
    let empty = DeviceManagers::new();
    assert!(empty.get_aacp().is_none());
    assert!(empty.get_att().is_none());
    let mut with_aacp = DeviceManagers::with_aacp(AACPManager::new());
    assert!(with_aacp.get_aacp().is_some());
    assert!(with_aacp.get_att().is_none());
    let with_att = DeviceManagers::with_att(ATTManager::new());
    assert!(with_att.get_aacp().is_none());
    assert_eq!(with_att.get_att(), Some(ATTManager { anc_mode: NothingAncMode::Off }));
    with_aacp.set_att(ATTManager { anc_mode: NothingAncMode::Transparency });
    assert_eq!(with_aacp.get_att().unwrap().anc_mode, NothingAncMode::Transparency);
    assert!(with_aacp.get_aacp().is_some());
    assert!(with_aacp.take_aacp().is_some());
    assert!(with_aacp.get_aacp().is_none());
    assert!(with_aacp.take_aacp().is_none());
    assert!(with_aacp.get_att().is_some());
}

#[test]
fn device_managers_replace_a_session() {
    let mut managers = DeviceManagers::new();
    managers.set_aacp(session_with(&[(Opcode::ControlCommand, vec![0x06, 0x01])]));
    assert!(managers.get_aacp().unwrap().state().ownership());
    managers.set_aacp(AACPManager::new());
    assert!(!managers.get_aacp().unwrap().state().ownership());
}

#[test]
fn bluetooth_devices_keep_sessions_by_address() {
    let mut devices = BluetoothDevices::new();
    assert!(!devices.contains(&"AA".to_string()));
    assert!(devices.get(&"AA".to_string()).is_none());
    devices.add_aacp("AA".to_string(), AACPManager::new());
    devices.add_att("BB".to_string(), ATTManager::new());
    assert!(devices.contains(&"AA".to_string()));
    assert!(devices.contains(&"BB".to_string()));
    assert!(!devices.contains(&"CC".to_string()));
    let aa = devices.get(&"AA".to_string()).unwrap();
    assert!(aa.get_aacp().is_some());
    assert!(aa.get_att().is_none());
    let bb = devices.get(&"BB".to_string()).unwrap();
    assert!(bb.get_aacp().is_none());
    assert!(bb.get_att().is_some());
}

#[test]
fn bluetooth_devices_add_a_second_session_to_a_known_device() {
    let mut devices = BluetoothDevices::new();
    devices.add_att("AA".to_string(), ATTManager { anc_mode: NothingAncMode::Transparency });
    devices.add_aacp(
        "AA".to_string(),
        session_with(&[(Opcode::ControlCommand, vec![0x06, 0x01])]),
    );
    devices.add_aacp("BB".to_string(), AACPManager::new());
    let aa = devices.get(&"AA".to_string()).unwrap();
    assert_eq!(aa.get_att().unwrap().anc_mode, NothingAncMode::Transparency);
    assert!(aa.get_aacp().unwrap().state().ownership());
    devices.add_aacp("AA".to_string(), AACPManager::new());
    let replaced = devices.get(&"AA".to_string()).unwrap();
    assert!(!replaced.get_aacp().unwrap().state().ownership());
    assert_eq!(replaced.get_att().unwrap().anc_mode, NothingAncMode::Transparency);
    assert!(devices.get(&"BB".to_string()).unwrap().get_att().is_none());
}

#[test]
fn a_bluetooth_manager_is_one_of_two_sessions() {
    let managers = [
        BluetoothManager::AACP(AACPManager::new()),
        BluetoothManager::ATT(ATTManager::new()),
    ];
    assert!(matches!(managers[0], BluetoothManager::AACP(_)));
    assert!(matches!(managers[1], BluetoothManager::ATT(_)));
}

#[test]
fn att_manager_follows_the_mode_byte() {
    let mut manager = ATTManager::new();
    assert_eq!(manager.anc_mode, NothingAncMode::Off);
    manager.note_mode_byte(0x07);
    assert_eq!(manager.anc_mode, NothingAncMode::Transparency);
    manager.note_mode_byte(0x99);
    assert_eq!(manager.anc_mode, NothingAncMode::Off);
    assert_eq!(ATTManager::mode_byte(NothingAncMode::HighNoiseCancellation), 0x01);
}

#[test]
fn bluetooth_state_lists_each_device_once() {
    let mut state = BluetoothState::new();
    assert_eq!(state.len(), 0);
    assert!(state.device_connected("AA".to_string()));
    assert!(state.device_connected("BB".to_string()));
    assert!(!state.device_connected("AA".to_string()));
    assert_eq!(state.len(), 2);
    assert!(state.is_connected(&"AA".to_string()));
    assert!(state.is_connected(&"BB".to_string()));
    assert!(!state.is_connected(&"CC".to_string()));
    assert!(!state.is_connected(&"A".to_string()));
}

#[test]
fn tabs_and_panes() {
    assert_eq!(Tab::Device("AA".to_string()), Tab::Device("AA".to_string()));
    assert_ne!(Tab::Device("AA".to_string()), Tab::Settings);
    assert_ne!(Tab::Settings, Tab::AddDevice);
    let pane = Pane::Sidebar;
    let copy = pane;
    assert!(matches!(copy, Pane::Sidebar));
    assert!(matches!(Pane::Content, Pane::Content));
}

#[test]
fn messages_carry_their_fields() {
    let message = BluetoothUIMessage::AACPUIEvent(
        "AA".to_string(),
        AACPEvent::ConversationalAwareness(true),
    );
    match message.clone() {
        BluetoothUIMessage::AACPUIEvent(mac, AACPEvent::ConversationalAwareness(speaking)) => {
            assert_eq!(mac, "AA");
            assert!(speaking);
        }
        other => panic!("unexpected message {:?}", other),
    }
    let notification = BluetoothUIMessage::ATTNotification("BB".to_string(), 7, vec![1, 2]);
    assert!(matches!(notification, BluetoothUIMessage::ATTNotification(_, 7, _)));
    assert!(matches!(BluetoothUIMessage::NoOp, BluetoothUIMessage::NoOp));
    let command = UICommand::Nothing(NothingCommand::SetNoiseCancellationMode(
        "BB".to_string(),
        NothingAncMode::Transparency,
    ));
    match command {
        UICommand::Nothing(inner) => assert_eq!(inner.mode_byte(), 0x07),
        UICommand::AirPods(_) => panic!("wrong family"),
    }
}

#[test]
fn airpods_commands_become_packets() {
    let set = AirPodsCommand::SetControlCommandStatus(
        "AA".to_string(),
        ControlCommandIdentifiers::ConversationDetectConfig,
        vec![0x01],
    );
    assert_eq!(set.packet(), Ok(vec![0x09, 2, 0, 0x28, 0x01]));
    let rename = AirPodsCommand::RenameDevice("AA".to_string(), "Mine".to_string());
    assert_eq!(rename.packet(), Ok(vec![0x1A, 4, 0, b'M', b'i', b'n', b'e']));
    let too_long = AirPodsCommand::RenameDevice("AA".to_string(), "x".repeat(0x1_0000));
    assert_eq!(too_long.packet(), Err(FormatError::PayloadTooLong));
}

#[test]
fn a_fresh_session_shows_defaults() {
    let manager = AACPManager::new();
    let state = airpods_state_from("Pods".to_string(), manager.state());
    assert_eq!(state.device_name, "Pods");
    assert!(state.battery.is_empty());
    assert_eq!(state.noise_control_mode, AirPodsNoiseControlMode::Transparency);
    assert!(!state.conversation_awareness_enabled);
    assert!(!state.personalized_volume_enabled);
    assert!(!state.allow_off_mode);
}

#[test]
fn a_connected_accessory_shows_what_the_session_has_seen() {
    let manager = session_with(&[
        (Opcode::ControlCommand, vec![0x0D, 0x02]),
        (Opcode::ControlCommand, vec![0x28, 0x01]),
        (Opcode::ControlCommand, vec![0x26, 0x02]),
        (Opcode::ControlCommand, vec![0x34, 0x01]),
        (Opcode::BatteryInfo, vec![1, 0x04, 55, 0x01]),
    ]);
    let state = airpods_state_from("Pods".to_string(), manager.state());
    assert_eq!(state.noise_control_mode, AirPodsNoiseControlMode::NoiseCancellation);
    assert!(state.conversation_awareness_enabled);
    assert!(!state.personalized_volume_enabled);
    assert!(state.allow_off_mode);
    assert_eq!(state.battery.len(), 1);
    assert_eq!(state.battery[0].level, Some(55));
}

#[test]
fn only_the_single_byte_one_switches_a_setting_on() {
    assert!(enables(&vec![1]));
    assert!(!enables(&vec![2]));
    assert!(!enables(&vec![0]));
    assert!(!enables(&vec![1, 0]));
    assert!(!enables(&vec![1, 1]));
    assert!(!enables(&Vec::new()));
    assert_eq!(listening_mode_of(&vec![4, 9]), AirPodsNoiseControlMode::Adaptive);
    assert_eq!(listening_mode_of(&Vec::new()), AirPodsNoiseControlMode::Transparency);
}

fn shown() -> AirPodsState {
    AirPodsState {
        device_name: "Pods".to_string(),
        battery: Vec::new(),
        noise_control_mode: AirPodsNoiseControlMode::Transparency,
        conversation_awareness_enabled: false,
        personalized_volume_enabled: true,
        allow_off_mode: false,
    }
}

fn report(identifier: ControlCommandIdentifiers, value: Vec<u8>) -> AACPEvent {
    AACPEvent::ControlCommand(ControlCommandStatus { identifier, value })
}

#[test]
fn events_change_what_the_window_shows() {
    let mut state = shown();
    apply_aacp_event(&mut state, &report(ControlCommandIdentifiers::ListeningMode, vec![1]));
    assert_eq!(state.noise_control_mode, AirPodsNoiseControlMode::Off);
    apply_aacp_event(
        &mut state,
        &report(ControlCommandIdentifiers::ConversationDetectConfig, vec![1]),
    );
    assert!(state.conversation_awareness_enabled);
    apply_aacp_event(&mut state, &report(ControlCommandIdentifiers::AdaptiveVolumeConfig, vec![2]));
    assert!(!state.personalized_volume_enabled);
    apply_aacp_event(&mut state, &report(ControlCommandIdentifiers::AllowOffOption, vec![1]));
    assert!(state.allow_off_mode);
    apply_aacp_event(&mut state, &report(ControlCommandIdentifiers::AllowOffOption, vec![7]));
    assert!(!state.allow_off_mode);
    let reading = BatteryInfo {
        component: BatteryComponent::Right,
        level: Some(30),
        status: BatteryStatus::NotCharging,
    };
    apply_aacp_event(&mut state, &AACPEvent::BatteryInfo(vec![reading]));
    assert_eq!(state.battery, vec![reading]);
    assert_eq!(state.device_name, "Pods");
}

#[test]
fn other_events_leave_the_window_alone() {
    let mut state = shown();
    apply_aacp_event(&mut state, &report(ControlCommandIdentifiers::MicMode, vec![1]));
    apply_aacp_event(&mut state, &AACPEvent::ConversationalAwareness(true));
    apply_aacp_event(&mut state, &AACPEvent::OwnershipToFalseRequest);
    assert_eq!(state.noise_control_mode, AirPodsNoiseControlMode::Transparency);
    assert!(!state.conversation_awareness_enabled);
    assert!(state.personalized_volume_enabled);
    assert!(!state.allow_off_mode);
    assert!(state.battery.is_empty());
}

#[test]
fn choices_of_the_user_become_settings() {
    let mut state = shown();
    let setting = apply_choice(&mut state, AirPodsChoice::ConversationAwareness(true));
    assert_eq!(setting.identifier, ControlCommandIdentifiers::ConversationDetectConfig);
    assert_eq!(setting.value, vec![0x01]);
    assert!(state.conversation_awareness_enabled);

    let setting = apply_choice(&mut state, AirPodsChoice::PersonalizedVolume(false));
    assert_eq!(setting.identifier, ControlCommandIdentifiers::AdaptiveVolumeConfig);
    assert_eq!(setting.value, vec![0x02]);
    assert!(!state.personalized_volume_enabled);

    let setting = apply_choice(
        &mut state,
        AirPodsChoice::NoiseControlMode(AirPodsNoiseControlMode::Adaptive),
    );
    assert_eq!(setting.identifier, ControlCommandIdentifiers::ListeningMode);
    assert_eq!(setting.value, vec![0x04]);
    assert_eq!(state.noise_control_mode, AirPodsNoiseControlMode::Adaptive);
    assert_eq!(state.device_name, "Pods");
    assert_eq!(switch_byte(true), 1);
    assert_eq!(switch_byte(false), 2);
}

#[test]
fn a_report_of_a_choice_changes_nothing() {
    let choices = [
        AirPodsChoice::ConversationAwareness(true),
        AirPodsChoice::ConversationAwareness(false),
        AirPodsChoice::PersonalizedVolume(true),
        AirPodsChoice::PersonalizedVolume(false),
        AirPodsChoice::NoiseControlMode(AirPodsNoiseControlMode::Off),
        AirPodsChoice::NoiseControlMode(AirPodsNoiseControlMode::NoiseCancellation),
        AirPodsChoice::NoiseControlMode(AirPodsNoiseControlMode::Transparency),
        AirPodsChoice::NoiseControlMode(AirPodsNoiseControlMode::Adaptive),
    ];
    for choice in choices {
        let mut chosen = shown();
        let setting = apply_choice(&mut chosen, choice);
        let mut reported = shown();
        apply_aacp_event(&mut reported, &AACPEvent::ControlCommand(setting));
        assert_eq!(reported.noise_control_mode, chosen.noise_control_mode);
        assert_eq!(
            reported.conversation_awareness_enabled,
            chosen.conversation_awareness_enabled
        );
        assert_eq!(reported.personalized_volume_enabled, chosen.personalized_volume_enabled);
        assert_eq!(reported.allow_off_mode, chosen.allow_off_mode);
    }
}

#[test]
fn the_window_offers_off_only_if_allowed() {
    assert_eq!(
        noise_control_options(false),
        vec![
            AirPodsNoiseControlMode::Transparency,
            AirPodsNoiseControlMode::NoiseCancellation,
            AirPodsNoiseControlMode::Adaptive
        ]
    );
    assert_eq!(
        noise_control_options(true),
        vec![
            AirPodsNoiseControlMode::Off,
            AirPodsNoiseControlMode::Transparency,
            AirPodsNoiseControlMode::NoiseCancellation,
            AirPodsNoiseControlMode::Adaptive
        ]
    );
    assert_eq!(nothing_mode_options().len(), 6);
    assert_eq!(nothing_mode_options()[0], NothingAncMode::Off);
    assert_eq!(nothing_mode_options()[5], NothingAncMode::HighNoiseCancellation);
}

#[test]
fn readings_are_found_by_component() {
    let left = BatteryInfo {
        component: BatteryComponent::Left,
        level: Some(10),
        status: BatteryStatus::Charging,
    };
    let case = BatteryInfo {
        component: BatteryComponent::Case,
        level: None,
        status: BatteryStatus::Disconnected,
    };
    let readings = vec![left, case];
    assert_eq!(find_reading(&readings, BatteryComponent::Left), Some(left));
    assert_eq!(find_reading(&readings, BatteryComponent::Case), Some(case));
    assert_eq!(find_reading(&readings, BatteryComponent::Right), None);
    assert_eq!(find_reading(&Vec::new(), BatteryComponent::Left), None);
}

#[test]
fn the_icon_shows_the_lower_bud() {
    let mut tray = TrayState::new();
    assert_eq!(tray.icon_level(), None);
    tray.battery_l = Some(80);
    tray.battery_l_status = Some(BatteryStatus::NotCharging);
    assert_eq!(tray.icon_level(), Some(80));
    tray.battery_r = Some(60);
    assert_eq!(tray.icon_level(), Some(60));
    tray.battery_r_status = Some(BatteryStatus::Disconnected);
    assert_eq!(tray.icon_level(), Some(80));
    tray.battery_c = Some(5);
    tray.battery_c_status = Some(BatteryStatus::Charging);
    assert_eq!(tray.icon_level(), Some(80));
    tray.battery_headphone = Some(90);
    assert_eq!(tray.icon_level(), Some(90));
    tray.battery_headphone_status = Some(BatteryStatus::Disconnected);
    assert_eq!(tray.icon_level(), None);
    assert_eq!(level_if_counted(Some(3), None), Some(3));
    assert_eq!(level_if_counted(Some(3), Some(BatteryStatus::Disconnected)), None);
}

#[test]
fn the_icon_marks_a_charging_bud() {
    let mut tray = TrayState::new();
    assert!(!tray.any_bud_charging());
    tray.battery_c_status = Some(BatteryStatus::Charging);
    assert!(!tray.any_bud_charging());
    tray.battery_r_status = Some(BatteryStatus::Charging);
    assert!(tray.any_bud_charging());
    assert!(is_charging(Some(BatteryStatus::Charging)));
    assert!(!is_charging(Some(BatteryStatus::NotCharging)));
    assert!(!is_charging(None));
}

#[test]
fn the_menu_lists_the_listening_modes() {
    let mut tray = TrayState::new();
    assert_eq!(tray.listening_mode_options(), vec![2, 3, 4]);
    assert_eq!(tray.selected_option(), 0);
    tray.listening_mode = Some(3);
    assert_eq!(tray.selected_option(), 1);
    tray.listening_mode = Some(1);
    assert_eq!(tray.selected_option(), 0);
    tray.allow_off_option = Some(0x01);
    assert_eq!(tray.listening_mode_options(), vec![1, 2, 3, 4]);
    assert_eq!(tray.selected_option(), 0);
    tray.listening_mode = Some(4);
    assert_eq!(tray.selected_option(), 3);
    tray.listening_mode = Some(9);
    assert_eq!(tray.selected_option(), 0);
    assert_eq!(tray.option_value(0), 1);
    assert_eq!(tray.option_value(3), 4);
    assert_eq!(tray.option_value(4), 2);
    tray.allow_off_option = Some(0x02);
    assert_eq!(tray.listening_mode_options(), vec![2, 3, 4]);
    assert_eq!(tray.option_value(2), 4);
    assert_eq!(tray.option_value(3), 2);
}

#[test]
fn the_conversation_switch_flips_only_when_known() {
    let mut tray = TrayState::new();
    assert_eq!(tray.toggle_conversation_detect(), None);
    assert_eq!(tray.conversation_detect_enabled, None);
    tray.conversation_detect_enabled = Some(false);
    assert_eq!(tray.toggle_conversation_detect(), Some(0x01));
    assert_eq!(tray.conversation_detect_enabled, Some(true));
    assert_eq!(tray.toggle_conversation_detect(), Some(0x02));
    assert_eq!(tray.conversation_detect_enabled, Some(false));
}

#[test]
fn the_tray_takes_batteries_from_an_advertisement() {
    let battery = |level, status| LeBattery { level, status };
    let telemetry = LeTelemetry {
        left: battery(Some(85), BatteryStatus::NotCharging),
        right: battery(None, BatteryStatus::Disconnected),
        case: battery(Some(20), BatteryStatus::Charging),
        left_in_ear: true,
        right_in_ear: false,
    };
    let mut tray = TrayState::new();
    tray.listening_mode = Some(2);
    tray.apply_le_telemetry(&telemetry);
    assert_eq!(tray.battery_l, Some(85));
    assert_eq!(tray.battery_l_status, Some(BatteryStatus::NotCharging));
    assert_eq!(tray.battery_r, None);
    assert_eq!(tray.battery_r_status, Some(BatteryStatus::Disconnected));
    assert_eq!(tray.battery_c, Some(20));
    assert_eq!(tray.battery_c_status, Some(BatteryStatus::Charging));
    assert_eq!(tray.listening_mode, Some(2));
    assert_eq!(tray.battery_headphone, None);
}

#[test]
fn the_tray_takes_readings_from_a_battery_event() {
    let reading = |component, level, status| BatteryInfo { component, level, status };
    let mut tray = TrayState::new();
    tray.apply_battery_info(&vec![
        reading(BatteryComponent::Right, Some(40), BatteryStatus::Charging),
        reading(BatteryComponent::Left, Some(50), BatteryStatus::NotCharging),
        reading(BatteryComponent::Case, None, BatteryStatus::Disconnected),
    ]);
    assert_eq!(tray.battery_r, Some(40));
    assert_eq!(tray.battery_r_status, Some(BatteryStatus::Charging));
    assert_eq!(tray.battery_l, Some(50));
    assert_eq!(tray.battery_c, None);
    assert_eq!(tray.battery_c_status, Some(BatteryStatus::Disconnected));
    assert_eq!(tray.battery_headphone, None);
    tray.apply_battery_info(&vec![reading(
        BatteryComponent::Headphone,
        Some(77),
        BatteryStatus::NotCharging,
    )]);
    tray.apply_battery_info(&Vec::new());
    assert_eq!(tray.battery_l, Some(50));
}

#[test]
fn the_tray_listens_to_three_settings() {
    assert_eq!(
        tray_settings(),
        vec![
            ControlCommandIdentifiers::ListeningMode,
            ControlCommandIdentifiers::AllowOffOption,
            ControlCommandIdentifiers::ConversationDetectConfig,
        ]
    );
    let mut tray = TrayState::new();
    let before = tray;
    tray.apply_control_value(ControlCommandIdentifiers::OwnsConnection, &[1]);
    tray.apply_control_value(ControlCommandIdentifiers::AdaptiveVolumeConfig, &[1]);
    assert_eq!(tray, before);
}

#[test]
fn the_tray_follows_buds_and_case_only() {
    let mut tray = TrayState::new();
    tray.battery_r = Some(40);
    let before = tray;
    tray.apply_battery_info(&vec![BatteryInfo {
        component: BatteryComponent::Headphone,
        level: Some(77),
        status: BatteryStatus::NotCharging,
    }]);
    assert_eq!(tray, before);
    assert_eq!(tray.battery_headphone, None);
}

#[test]
fn the_tray_takes_reports_of_its_three_settings() {
    let mut tray = TrayState::new();
    tray.apply_control_value(ControlCommandIdentifiers::ListeningMode, &[3, 0]);
    assert_eq!(tray.listening_mode, Some(3));
    tray.apply_control_value(ControlCommandIdentifiers::AllowOffOption, &[1]);
    assert_eq!(tray.allow_off_option, Some(1));
    tray.apply_control_value(ControlCommandIdentifiers::ConversationDetectConfig, &[1]);
    assert_eq!(tray.conversation_detect_enabled, Some(true));
    tray.apply_control_value(ControlCommandIdentifiers::ConversationDetectConfig, &[2]);
    assert_eq!(tray.conversation_detect_enabled, Some(false));
    tray.apply_control_value(ControlCommandIdentifiers::ListeningMode, &[]);
    assert_eq!(tray.listening_mode, Some(3));
    tray.apply_control_value(ControlCommandIdentifiers::MicMode, &[9]);
    assert_eq!(tray.listening_mode, Some(3));
    assert_eq!(tray.allow_off_option, Some(1));
    assert!(!tray.connected);
}
