use librepods::bluetooth::aacp::{
    encode, AACPEvent, BatteryComponent, BatteryStatus, ControlCommandIdentifiers,
    EarDetectionStatus, FormatError, Opcode,
};
use librepods::bluetooth::manager::AACPManager;
use librepods::bluetooth::router::{
    actions_for, contains_mac, find_new_peers, hand_off_packets, owns, same_mac, SessionAction,
};
use librepods::bluetooth::session::{
    CommandDispatcher, DispatchStep, HandshakeAction, HandshakeSequencer, HandshakeState,
    SubscriptionRegistry, SETTLE_DELAY_MS,
};
use librepods::bluetooth::aacp::ConnectedDeviceInfo;

const LOCAL: [u8; 6] = [0x10, 0x10, 0x10, 0x10, 0x10, 0x10];
const A: [u8; 6] = [0xA0, 0, 0, 0, 0, 1];
const B: [u8; 6] = [0xB0, 0, 0, 0, 0, 2];
const C: [u8; 6] = [0xC0, 0, 0, 0, 0, 3];

fn frame(opcode: Opcode, payload: &[u8]) -> Vec<u8> {
    encode(opcode, payload).unwrap()
}

fn devices_frame(macs: &[[u8; 6]]) -> Vec<u8> {
    let mut payload = vec![macs.len() as u8];
    for mac in macs {
        payload.extend_from_slice(mac);
        payload.push(1);
        payload.push(2);
    }
    frame(Opcode::ConnectedDevices, &payload)
}

fn hand_offs(actions: &[SessionAction]) -> Vec<[u8; 6]> {
    let mut out = Vec::new();
    for action in actions {
        match action {
            SessionAction::HandOff(peer) => out.push(*peer),
            other => panic!("unexpected action {:?}", other),
        }
    }
    out
}

#[test]
fn handshake_writes_its_five_packets_in_order() {
    let mut sequencer = HandshakeSequencer::new();
    assert_eq!(sequencer.state(), HandshakeState::Idle);
    let expected = [
        (0x01u8, HandshakeState::HandshakeSent),
        (0x4D, HandshakeState::FeatureFlagsSent),
        (0x0F, HandshakeState::NotificationsRequested),
        (0x29, HandshakeState::InitPacketSent),
        (0x30, HandshakeState::ProximityKeysRequested),
    ];
    for (opcode, state) in expected {
        match sequencer.advance() {
            HandshakeAction::Write { packet, settle_ms } => {
                assert_eq!(packet[0], opcode);
                assert_eq!(settle_ms, SETTLE_DELAY_MS);
                assert_eq!(settle_ms, 100);
            }
            other => panic!("unexpected action {:?}", other),
        }
        assert_eq!(sequencer.state(), state);
        assert!(!sequencer.is_ready());
    }
    assert!(matches!(sequencer.advance(), HandshakeAction::Finish));
    assert!(sequencer.is_ready());
    assert_eq!(sequencer.state(), HandshakeState::Ready);
    assert!(matches!(sequencer.advance(), HandshakeAction::Nothing));
    assert_eq!(sequencer.state(), HandshakeState::Ready);
}

#[test]
fn handshake_asks_for_both_keys() {
    let mut sequencer = HandshakeSequencer::new();
    for _ in 0..4 {
        sequencer.advance();
    }
    match sequencer.advance() {
        HandshakeAction::Write { packet, .. } => assert_eq!(packet, vec![0x30, 1, 0, 0x05]),
        other => panic!("unexpected action {:?}", other),
    }
}

#[test]
fn handshake_goes_on_after_failed_writes() {
    let mut sequencer = HandshakeSequencer::new();
    for step in 0..6u64 {
        sequencer.advance();
        sequencer.write_failed();
        assert_eq!(sequencer.failures(), step + 1);
    }
    assert!(sequencer.is_ready());
    assert_eq!(sequencer.failures(), 6);
    assert_eq!(HandshakeState::Idle.next(), HandshakeState::HandshakeSent);
    assert_eq!(HandshakeState::Ready.next(), HandshakeState::Ready);
}

#[test]
fn dispatcher_sends_in_the_order_of_enqueueing() {
    let mut dispatcher = CommandDispatcher::new();
    dispatcher.enqueue(ControlCommandIdentifiers::ListeningMode, vec![2]);
    dispatcher.enqueue(ControlCommandIdentifiers::AllowOffOption, vec![1]);
    dispatcher.enqueue(ControlCommandIdentifiers::ListeningMode, vec![3]);
    assert_eq!(dispatcher.len(), 3);
    let mut sent = Vec::new();
    loop {
        match dispatcher.next_packet() {
            DispatchStep::Send(packet) => sent.push(packet),
            DispatchStep::Idle => break,
            DispatchStep::Rejected(error) => panic!("rejected: {:?}", error),
        }
    }
    assert_eq!(
        sent,
        vec![
            vec![0x09, 2, 0, 0x0D, 2],
            vec![0x09, 2, 0, 0x34, 1],
            vec![0x09, 2, 0, 0x0D, 3],
        ]
    );
    assert_eq!(dispatcher.len(), 0);
    assert!(matches!(dispatcher.next_packet(), DispatchStep::Idle));
}

#[test]
fn dispatcher_keeps_the_order_when_sends_and_enqueues_alternate() {
    let mut dispatcher = CommandDispatcher::new();
    dispatcher.enqueue(ControlCommandIdentifiers::MicMode, vec![1]);
    dispatcher.enqueue(ControlCommandIdentifiers::MicMode, vec![2]);
    let first = dispatcher.next_command().unwrap();
    assert_eq!(first.value, vec![1]);
    dispatcher.enqueue(ControlCommandIdentifiers::MicMode, vec![3]);
    assert_eq!(dispatcher.next_command().unwrap().value, vec![2]);
    assert_eq!(dispatcher.next_command().unwrap().value, vec![3]);
    assert!(dispatcher.next_command().is_none());
}

#[test]
fn dispatcher_drops_a_command_that_cannot_be_framed() {
    let mut dispatcher = CommandDispatcher::new();
    dispatcher.enqueue(ControlCommandIdentifiers::ListeningMode, vec![0u8; 0xFFFF]);
    dispatcher.enqueue(ControlCommandIdentifiers::ListeningMode, vec![2]);
    match dispatcher.next_packet() {
        DispatchStep::Rejected(error) => assert_eq!(error, FormatError::PayloadTooLong),
        other => panic!("unexpected step {:?}", other),
    }
    assert!(matches!(dispatcher.next_packet(), DispatchStep::Send(_)));
}

#[test]
fn registry_lists_the_subscribers_of_a_setting_in_order() {
    let mut registry = SubscriptionRegistry::new();
    assert!(registry.subscribe(ControlCommandIdentifiers::ListeningMode, 3));
    assert!(registry.subscribe(ControlCommandIdentifiers::AllowOffOption, 1));
    assert!(registry.subscribe(ControlCommandIdentifiers::ListeningMode, 2));
    assert!(!registry.subscribe(ControlCommandIdentifiers::ListeningMode, 3));
    assert_eq!(registry.subscribers(ControlCommandIdentifiers::ListeningMode), vec![3, 2]);
    assert_eq!(registry.subscribers(ControlCommandIdentifiers::AllowOffOption), vec![1]);
    assert!(registry.subscribers(ControlCommandIdentifiers::OwnsConnection).is_empty());
    assert!(registry.is_subscribed(ControlCommandIdentifiers::ListeningMode, 2));
    assert!(!registry.is_subscribed(ControlCommandIdentifiers::AllowOffOption, 2));
}

#[test]
fn registry_forgets_a_subscriber_everywhere() {
    let mut registry = SubscriptionRegistry::new();
    registry.subscribe(ControlCommandIdentifiers::ListeningMode, 1);
    registry.subscribe(ControlCommandIdentifiers::ListeningMode, 2);
    registry.subscribe(ControlCommandIdentifiers::AllowOffOption, 1);
    registry.unsubscribe(1);
    assert_eq!(registry.subscribers(ControlCommandIdentifiers::ListeningMode), vec![2]);
    assert!(registry.subscribers(ControlCommandIdentifiers::AllowOffOption).is_empty());
    registry.unsubscribe(9);
    assert_eq!(registry.subscribers(ControlCommandIdentifiers::ListeningMode), vec![2]);
}

#[test]
fn a_listening_mode_subscriber_hears_listening_mode_only() {
    let mut manager = AACPManager::new();
    assert!(manager.subscribe_to_control_command(ControlCommandIdentifiers::ListeningMode, 7));
    let outcome = manager.receive(&frame(Opcode::ControlCommand, &[0x0D, 0x02]), &LOCAL);
    assert_eq!(outcome.deliveries.len(), 1);
    assert_eq!(outcome.deliveries[0].subscriber, 7);
    assert_eq!(outcome.deliveries[0].value, vec![0x02]);
    match outcome.event {
        Some(AACPEvent::ControlCommand(status)) => {
            assert_eq!(status.identifier, ControlCommandIdentifiers::ListeningMode);
            assert_eq!(status.value, vec![0x02]);
        }
        other => panic!("unexpected event {:?}", other),
    }
    let other = manager.receive(&frame(Opcode::ControlCommand, &[0x34, 0x01]), &LOCAL);
    assert!(other.event.is_some());
    assert!(other.deliveries.is_empty());
    let battery = manager.receive(&frame(Opcode::BatteryInfo, &[0]), &LOCAL);
    assert!(battery.deliveries.is_empty());
}

#[test]
fn a_dropped_subscriber_is_skipped_without_error() {
    let mut manager = AACPManager::new();
    manager.subscribe_to_control_command(ControlCommandIdentifiers::ListeningMode, 7);
    manager.subscribe_to_control_command(ControlCommandIdentifiers::ListeningMode, 8);
    manager.unsubscribe(7);
    let outcome = manager.receive(&frame(Opcode::ControlCommand, &[0x0D, 0x03]), &LOCAL);
    assert_eq!(outcome.deliveries.len(), 1);
    assert_eq!(outcome.deliveries[0].subscriber, 8);
    manager.unsubscribe(8);
    let silent = manager.receive(&frame(Opcode::ControlCommand, &[0x0D, 0x04]), &LOCAL);
    assert!(silent.event.is_some());
    assert!(silent.deliveries.is_empty());
    assert_eq!(
        manager.state().status_value(ControlCommandIdentifiers::ListeningMode),
        Some(vec![0x04])
    );
}

#[test]
fn a_new_peer_gets_exactly_one_hand_off() {
    let mut manager = AACPManager::new();
    let first = manager.receive(&devices_frame(&[A, B]), &LOCAL);
    assert_eq!(hand_offs(&first.actions), vec![A, B]);
    let grown = manager.receive(&devices_frame(&[A, B, C]), &LOCAL);
    assert_eq!(hand_offs(&grown.actions), vec![C]);
    match grown.event {
        Some(AACPEvent::ConnectedDevices(old_devices, new_devices)) => {
            assert_eq!(old_devices.len(), 2);
            assert_eq!(new_devices.len(), 3);
            assert_eq!(new_devices[2].mac, C);
        }
        other => panic!("unexpected event {:?}", other),
    }
    assert_eq!(manager.state().connected_devices().len(), 3);
}

#[test]
fn an_unchanged_list_calls_for_no_hand_off() {
    let mut manager = AACPManager::new();
    manager.receive(&devices_frame(&[A, B]), &LOCAL);
    let same = manager.receive(&devices_frame(&[A, B]), &LOCAL);
    assert!(same.event.is_some());
    assert!(same.actions.is_empty());
    let shrunk = manager.receive(&devices_frame(&[B]), &LOCAL);
    assert!(shrunk.actions.is_empty());
}

#[test]
fn this_host_is_never_a_new_peer() {
    let mut manager = AACPManager::new();
    manager.receive(&devices_frame(&[A, B]), &LOCAL);
    let outcome = manager.receive(&devices_frame(&[A, B, LOCAL, C]), &LOCAL);
    assert_eq!(hand_offs(&outcome.actions), vec![C]);
    let only_local = manager.receive(&devices_frame(&[LOCAL]), &LOCAL);
    assert!(only_local.actions.is_empty());
}

#[test]
fn new_peers_are_found_by_address() {
    let device = |mac: [u8; 6], info: u8| ConnectedDeviceInfo { mac, info1: info, info2: info };
    let old_devices = vec![device(A, 1), device(B, 1)];
    let new_devices = vec![device(A, 9), device(C, 2), device(LOCAL, 3), device(C, 4)];
    let peers = find_new_peers(&old_devices, &new_devices, &LOCAL);
    assert_eq!(peers.len(), 2);
    assert_eq!(peers[0].mac, C);
    assert_eq!(peers[0].info1, 2);
    assert_eq!(peers[1].info1, 4);
    assert!(contains_mac(&old_devices, &A));
    assert!(!contains_mac(&old_devices, &C));
    assert!(same_mac(&A, &A));
    assert!(!same_mac(&A, &B));
    assert!(!same_mac(&[0, 0, 0, 0, 0, 1], &[0, 0, 0, 0, 0, 2]));
}

#[test]
fn hand_off_sends_media_information_before_the_announcement() {
    let packets = hand_off_packets(&LOCAL, &C);
    assert_eq!(packets.len(), 2);
    assert_eq!(packets[0][0], 0x10);
    assert_eq!(packets[1][0], 0x0C);
    assert_eq!(&packets[0][3..9], &LOCAL);
    assert_eq!(&packets[0][9..15], &C);
    assert_eq!(&packets[1][3..], &packets[0][3..]);
}

#[test]
fn a_request_to_give_up_ownership_is_obeyed() {
    let mut manager = AACPManager::new();
    manager.receive(&frame(Opcode::ControlCommand, &[0x06, 0x01]), &LOCAL);
    assert!(manager.state().ownership());
    let outcome = manager.receive(&frame(Opcode::OwnershipRequest, &[0x00]), &LOCAL);
    assert!(matches!(outcome.event, Some(AACPEvent::OwnershipToFalseRequest)));
    assert_eq!(outcome.actions.len(), 2);
    assert!(matches!(outcome.actions[0], SessionAction::PauseAllMedia));
    assert!(matches!(outcome.actions[1], SessionAction::DeactivateAudioProfile));
    assert!(!manager.state().ownership());
    match manager.next_packet() {
        DispatchStep::Send(packet) => assert_eq!(packet, vec![0x09, 2, 0, 0x06, 0x00]),
        other => panic!("unexpected step {:?}", other),
    }
    assert!(matches!(manager.next_packet(), DispatchStep::Idle));
}

#[test]
fn any_other_ownership_request_is_ignored() {
    let mut manager = AACPManager::new();
    let outcome = manager.receive(&frame(Opcode::OwnershipRequest, &[0x01]), &LOCAL);
    assert!(outcome.event.is_none());
    assert!(outcome.actions.is_empty());
    assert!(matches!(manager.next_packet(), DispatchStep::Idle));
}

#[test]
fn losing_ownership_by_report_pauses_too() {
    let mut manager = AACPManager::new();
    let gained = manager.receive(&frame(Opcode::ControlCommand, &[0x06, 0x01]), &LOCAL);
    assert!(gained.actions.is_empty());
    assert!(manager.state().ownership());
    let lost = manager.receive(&frame(Opcode::ControlCommand, &[0x06, 0x00]), &LOCAL);
    assert_eq!(lost.actions.len(), 2);
    assert!(matches!(lost.actions[0], SessionAction::PauseAllMedia));
    assert!(matches!(lost.actions[1], SessionAction::DeactivateAudioProfile));
    assert!(!manager.state().ownership());
    assert!(matches!(manager.next_packet(), DispatchStep::Idle));
    let empty = manager.receive(&frame(Opcode::ControlCommand, &[0x06]), &LOCAL);
    assert_eq!(empty.actions.len(), 2);
    assert!(owns(&vec![5]));
    assert!(!owns(&vec![0, 1]));
    assert!(!owns(&Vec::new()));
}

#[test]
fn a_battery_event_replaces_the_readings_wholesale() {
    let mut manager = AACPManager::new();
    manager.receive(&frame(Opcode::BatteryInfo, &[2, 0x04, 80, 0x02, 0x02, 70, 0x01]), &LOCAL);
    let both = manager.state().battery_info();
    assert_eq!(both.len(), 2);
    let outcome = manager.receive(&frame(Opcode::BatteryInfo, &[1, 0x08, 0xFF, 0x04]), &LOCAL);
    assert!(matches!(outcome.event, Some(AACPEvent::BatteryInfo(_))));
    let only = manager.state().battery_info();
    assert_eq!(only.len(), 1);
    assert_eq!(only[0].component, BatteryComponent::Case);
    assert_eq!(only[0].level, None);
    assert_eq!(only[0].status, BatteryStatus::Disconnected);
}

#[test]
fn the_last_value_of_a_setting_wins() {
    let mut manager = AACPManager::new();
    manager.receive(&frame(Opcode::ControlCommand, &[0x0D, 0x02]), &LOCAL);
    manager.receive(&frame(Opcode::ControlCommand, &[0x34, 0x01]), &LOCAL);
    manager.receive(&frame(Opcode::ControlCommand, &[0x0D, 0x03]), &LOCAL);
    let state = manager.state();
    assert_eq!(state.status_count(), 2);
    assert_eq!(state.status_value(ControlCommandIdentifiers::ListeningMode), Some(vec![0x03]));
    assert_eq!(state.status_value(ControlCommandIdentifiers::AllowOffOption), Some(vec![0x01]));
    assert_eq!(state.status_value(ControlCommandIdentifiers::MicMode), None);
}

#[test]
fn ear_detection_reports_old_and_new_places() {
    let mut manager = AACPManager::new();
    let first = manager.receive(&frame(Opcode::EarDetection, &[0, 1]), &LOCAL);
    match first.event {
        Some(AACPEvent::EarDetection(old_places, new_places)) => {
            assert!(old_places.is_empty());
            assert_eq!(new_places, vec![EarDetectionStatus::InEar, EarDetectionStatus::OutOfEar]);
        }
        other => panic!("unexpected event {:?}", other),
    }
    let second = manager.receive(&frame(Opcode::EarDetection, &[2, 2]), &LOCAL);
    assert_eq!(second.actions.len(), 1);
    match &second.actions[0] {
        SessionAction::HandleEarDetection(old_places, new_places) => {
            assert_eq!(*old_places, vec![EarDetectionStatus::InEar, EarDetectionStatus::OutOfEar]);
            assert_eq!(*new_places, vec![EarDetectionStatus::InCase, EarDetectionStatus::InCase]);
        }
        other => panic!("unexpected action {:?}", other),
    }
    assert_eq!(
        manager.state().ear_detection_status(),
        vec![EarDetectionStatus::InCase, EarDetectionStatus::InCase]
    );
}

#[test]
fn conversational_awareness_is_passed_on() {
    let mut manager = AACPManager::new();
    let speaking = manager.receive(&frame(Opcode::ConversationalAwareness, &[1]), &LOCAL);
    assert!(matches!(speaking.event, Some(AACPEvent::ConversationalAwareness(true))));
    assert!(matches!(
        speaking.actions[0],
        SessionAction::HandleConversationalAwareness(true)
    ));
    assert!(manager.state().conversation_awareness());
    let silent = manager.receive(&frame(Opcode::ConversationalAwareness, &[8]), &LOCAL);
    assert!(matches!(silent.event, Some(AACPEvent::ConversationalAwareness(false))));
    assert!(!manager.state().conversation_awareness());
}

#[test]
fn proximity_keys_arrive_as_an_event() {
    let mut manager = AACPManager::new();
    let mut payload = vec![1u8, 0x04];
    payload.extend_from_slice(&[0x5A; 16]);
    let outcome = manager.receive(&frame(Opcode::ProximityKeysResponse, &payload), &LOCAL);
    match outcome.event {
        Some(AACPEvent::ProximityKeys(keys)) => {
            assert_eq!(keys.len(), 1);
            assert_eq!(keys[0].bytes, [0x5A; 16]);
        }
        other => panic!("unexpected event {:?}", other),
    }
    assert!(outcome.actions.is_empty());
    assert!(outcome.deliveries.is_empty());
}

#[test]
fn what_is_no_event_changes_nothing() {
    let mut manager = AACPManager::new();
    manager.receive(&frame(Opcode::ControlCommand, &[0x0D, 0x02]), &LOCAL);
    let inputs: Vec<Vec<u8>> = vec![
        vec![],
        vec![0x04, 1],
        vec![0xEE, 0, 0],
        vec![0x04, 5, 0, 1],
        frame(Opcode::BatteryInfo, &[1, 4, 200, 2]),
        frame(Opcode::ControlCommand, &[0xEE, 1]),
        frame(Opcode::Handshake, &[1, 0, 2, 0]),
        frame(Opcode::EarDetection, &[9, 9]),
    ];
    for input in inputs {
        let outcome = manager.receive(&input, &LOCAL);
        assert!(outcome.event.is_none());
        assert!(outcome.deliveries.is_empty());
        assert!(outcome.actions.is_empty());
    }
    assert_eq!(manager.state().status_count(), 1);
    assert!(manager.state().battery_info().is_empty());
    assert!(matches!(manager.next_packet(), DispatchStep::Idle));
}

#[test]
fn a_session_drives_its_own_bring_up_and_queue() {
    let mut manager = AACPManager::new();
    assert_eq!(manager.handshake_state(), HandshakeState::Idle);
    assert!(matches!(manager.advance_handshake(), HandshakeAction::Write { .. }));
    manager.handshake_write_failed();
    assert_eq!(manager.handshake_state(), HandshakeState::HandshakeSent);
    manager.enqueue_control_command(ControlCommandIdentifiers::ListeningMode, vec![4]);
    match manager.next_packet() {
        DispatchStep::Send(packet) => assert_eq!(packet, vec![0x09, 2, 0, 0x0D, 4]),
        other => panic!("unexpected step {:?}", other),
    }
}

#[test]
fn actions_follow_the_event() {
    let event = AACPEvent::OwnershipToFalseRequest;
    assert_eq!(actions_for(&event, &LOCAL).len(), 2);
    let keys = AACPEvent::ProximityKeys(Vec::new());
    assert!(actions_for(&keys, &LOCAL).is_empty());
    let battery = AACPEvent::BatteryInfo(Vec::new());
    assert!(actions_for(&battery, &LOCAL).is_empty());
}
