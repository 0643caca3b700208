use librepods::bluetooth::aacp::EarDetectionStatus::{InCase, InEar, OutOfEar};
use librepods::bluetooth::router::SessionAction;
use librepods::media_controller::{count_in_ear, MediaState, MediaStep};

#[test]
fn buds_in_ear_are_counted() {
    assert_eq!(count_in_ear(&vec![]), 0);
    assert_eq!(count_in_ear(&vec![InEar, InEar]), 2);
    assert_eq!(count_in_ear(&vec![InEar, OutOfEar]), 1);
    assert_eq!(count_in_ear(&vec![InCase, OutOfEar]), 0);
}

#[test]
fn a_bud_taken_out_pauses_the_players() {
    let mut state = MediaState::new();
    let steps = state.handle_ear_detection(&vec![InEar, InEar], &vec![InEar, OutOfEar]);
    assert_eq!(steps, vec![MediaStep::PauseAll]);
    assert!(state.paused_by_us);
}

#[test]
fn the_last_bud_taken_out_switches_the_profile_off() {
    let mut state = MediaState::new();
    let steps = state.handle_ear_detection(&vec![InEar, OutOfEar], &vec![InCase, OutOfEar]);
    assert_eq!(steps, vec![MediaStep::PauseAll, MediaStep::DeactivateProfile]);
    assert!(state.paused_by_us);
}

#[test]
fn the_first_bud_put_in_switches_the_profile_on() {
    let mut state = MediaState::new();
    let steps = state.handle_ear_detection(&vec![InCase, InCase], &vec![InEar, InCase]);
    assert_eq!(steps, vec![MediaStep::ActivateProfile]);
    assert!(!state.paused_by_us);
}

#[test]
fn players_resume_only_if_this_controller_paused_them() {
    let mut state = MediaState::new();
    let steps = state.handle_ear_detection(&vec![InEar, OutOfEar], &vec![InEar, InEar]);
    assert_eq!(steps, Vec::<MediaStep>::new());

    let mut state = MediaState::new();
    state.handle_ear_detection(&vec![InEar, InEar], &vec![InEar, OutOfEar]);
    let steps = state.handle_ear_detection(&vec![InEar, OutOfEar], &vec![InEar, InEar]);
    assert_eq!(steps, vec![MediaStep::Resume]);
    assert!(!state.paused_by_us);
}

#[test]
fn both_buds_put_in_at_once_switch_on_and_resume() {
    let mut state = MediaState { paused_by_us: true, lowered_by_us: false };
    let steps = state.handle_ear_detection(&vec![OutOfEar, OutOfEar], &vec![InEar, InEar]);
    assert_eq!(steps, vec![MediaStep::ActivateProfile, MediaStep::Resume]);
    assert_eq!(state, MediaState { paused_by_us: false, lowered_by_us: false });
}

#[test]
fn unchanged_places_call_for_nothing() {
    let mut state = MediaState { paused_by_us: true, lowered_by_us: true };
    let steps = state.handle_ear_detection(&vec![InEar, OutOfEar], &vec![OutOfEar, InEar]);
    assert_eq!(steps, Vec::<MediaStep>::new());
    assert_eq!(state, MediaState { paused_by_us: true, lowered_by_us: true });
}

#[test]
fn speech_lowers_the_volume_once_and_silence_restores_it_once() {
    let mut state = MediaState::new();
    assert_eq!(state.handle_conversational_awareness(false), Vec::<MediaStep>::new());
    assert_eq!(state.handle_conversational_awareness(true), vec![MediaStep::LowerVolume]);
    assert_eq!(state.handle_conversational_awareness(true), Vec::<MediaStep>::new());
    assert!(state.lowered_by_us);
    assert_eq!(state.handle_conversational_awareness(false), vec![MediaStep::RestoreVolume]);
    assert_eq!(state.handle_conversational_awareness(false), Vec::<MediaStep>::new());
    assert!(!state.lowered_by_us);
}

#[test]
fn actions_of_a_session_become_steps() {
    let mut state = MediaState::new();
    assert_eq!(state.steps_for(&SessionAction::PauseAllMedia), vec![MediaStep::PauseAll]);
    assert!(state.paused_by_us);
    assert_eq!(
        state.steps_for(&SessionAction::DeactivateAudioProfile),
        vec![MediaStep::DeactivateProfile]
    );
    assert_eq!(
        state.steps_for(&SessionAction::HandleConversationalAwareness(true)),
        vec![MediaStep::LowerVolume]
    );
    assert_eq!(
        state.steps_for(&SessionAction::HandleEarDetection(vec![InCase], vec![InEar])),
        vec![MediaStep::ActivateProfile, MediaStep::Resume]
    );
    let before = state;
    assert_eq!(state.steps_for(&SessionAction::HandOff([1, 2, 3, 4, 5, 6])), Vec::<MediaStep>::new());
    assert_eq!(state, before);
}
