use crate::bluetooth::aacp::EarDetectionStatus;
use crate::bluetooth::router::SessionAction;
use vstd::prelude::*;

verus! {

/// One thing that is done to the players and the audio server of the desktop.
#[derive(Debug, Clone, Copy, PartialEq, Eq, Structural)]
pub enum MediaStep {
    PauseAll,
    Resume,
    ActivateProfile,
    DeactivateProfile,
    LowerVolume,
    RestoreVolume,
}

/// What the media controller remembers of its own doing, so that it undoes
/// nothing that somebody else did.
#[derive(Debug, Clone, Copy, PartialEq, Eq, Structural)]
pub struct MediaState {
    /// The players were paused for the accessory and have not resumed since.
    pub paused_by_us: bool,
    /// The volume was lowered for the wearer's speech and not restored since.
    pub lowered_by_us: bool,
}

/// What the media controller is told.
pub enum MediaEvent {
    /// Where the buds were and are.
    EarDetection(Seq<EarDetectionStatus>, Seq<EarDetectionStatus>),
    /// Whether the wearer is speaking.
    ConversationalAwareness(bool),
    PauseAllMedia,
    DeactivateAudioProfile,
}

/// How many buds sit in an ear.
pub open spec fn in_ear_count(places: Seq<EarDetectionStatus>) -> nat
    decreases places.len(),
{
    if places.len() == 0 {
        0
    } else {
        in_ear_count(places.drop_last()) + if places.last() == EarDetectionStatus::InEar {
            1nat
        } else {
            0nat
        }
    }
}

/// Whether the players resume: every bud sits in an ear again, more of them
/// than before, and it was this controller that paused.
pub open spec fn resumes(
    state: MediaState,
    old_places: Seq<EarDetectionStatus>,
    new_places: Seq<EarDetectionStatus>,
) -> bool {
    &&& in_ear_count(new_places) > in_ear_count(old_places)
    &&& in_ear_count(new_places) == new_places.len()
    &&& state.paused_by_us
}

/// What a change of the buds' places calls for. A bud taken out pauses the
/// players, and the last one taken out switches the audio profile off. A bud
/// put in switches the profile on if it is the first.
pub open spec fn ear_detection_steps(
    state: MediaState,
    old_places: Seq<EarDetectionStatus>,
    new_places: Seq<EarDetectionStatus>,
) -> Seq<MediaStep> {
    let before = in_ear_count(old_places);
    let now = in_ear_count(new_places);
    if now < before {
        if now == 0 {
            seq![MediaStep::PauseAll, MediaStep::DeactivateProfile]
        } else {
            seq![MediaStep::PauseAll]
        }
    } else if now > before {
        (if before == 0 {
            seq![MediaStep::ActivateProfile]
        } else {
            Seq::empty()
        }) + (if resumes(state, old_places, new_places) {
            seq![MediaStep::Resume]
        } else {
            Seq::empty()
        })
    } else {
        Seq::empty()
    }
}

/// What an event calls for.
pub open spec fn steps_spec(state: MediaState, event: MediaEvent) -> Seq<MediaStep> {
    match event {
        MediaEvent::EarDetection(old_places, new_places) => ear_detection_steps(
            state,
            old_places,
            new_places,
        ),
        MediaEvent::ConversationalAwareness(speaking) => if speaking && !state.lowered_by_us {
            seq![MediaStep::LowerVolume]
        } else if !speaking && state.lowered_by_us {
            seq![MediaStep::RestoreVolume]
        } else {
            Seq::empty()
        },
        MediaEvent::PauseAllMedia => seq![MediaStep::PauseAll],
        MediaEvent::DeactivateAudioProfile => seq![MediaStep::DeactivateProfile],
    }
}

/// What the controller remembers after an event.
pub open spec fn media_state_after(state: MediaState, event: MediaEvent) -> MediaState {
    match event {
        MediaEvent::EarDetection(old_places, new_places) => MediaState {
            paused_by_us: if in_ear_count(new_places) < in_ear_count(old_places) {
                true
            } else if resumes(state, old_places, new_places) {
                false
            } else {
                state.paused_by_us
            },
            ..state
        },
        MediaEvent::ConversationalAwareness(speaking) => MediaState {
            lowered_by_us: speaking,
            ..state
        },
        MediaEvent::PauseAllMedia => MediaState { paused_by_us: true, ..state },
        MediaEvent::DeactivateAudioProfile => state,
    }
}

/// The event that an action of a session is for the media controller, if it
/// is one for it at all.
pub open spec fn media_event_of(action: SessionAction) -> Option<MediaEvent> {
    match action {
        SessionAction::HandleEarDetection(old_places, new_places) => Some(
            MediaEvent::EarDetection(old_places@, new_places@),
        ),
        SessionAction::HandleConversationalAwareness(speaking) => Some(
            MediaEvent::ConversationalAwareness(speaking),
        ),
        SessionAction::PauseAllMedia => Some(MediaEvent::PauseAllMedia),
        SessionAction::DeactivateAudioProfile => Some(MediaEvent::DeactivateAudioProfile),
        SessionAction::HandOff(_) => None,
    }
}

/// Counts the buds that sit in an ear.
pub fn count_in_ear(places: &Vec<EarDetectionStatus>) -> (count: usize)
    ensures
        count == in_ear_count(places@),
        count <= places@.len(),
{
    let mut count: usize = 0;
    let mut i: usize = 0;
    assert(places@.take(0) =~= Seq::<EarDetectionStatus>::empty());
    while i < places.len()
        invariant
            i <= places@.len(),
            count <= i,
            count == in_ear_count(places@.take(i as int)),
        decreases places@.len() - i,
    {
        assert(places@.take(i + 1).drop_last() =~= places@.take(i as int));
        assert(places@.take(i + 1).last() == places@[i as int]);
        if places[i] == EarDetectionStatus::InEar {
            count += 1;
        }
        i += 1;
    }
    assert(places@.take(i as int) =~= places@);
    count
}

impl MediaState {
    /// A controller that has done nothing yet.
    pub fn new() -> (state: Self)
        ensures
            state == (MediaState { paused_by_us: false, lowered_by_us: false }),
    {
        MediaState { paused_by_us: false, lowered_by_us: false }
    }

    /// Takes a change of the buds' places.
    pub fn handle_ear_detection(
        &mut self,
        old_places: &Vec<EarDetectionStatus>,
        new_places: &Vec<EarDetectionStatus>,
    ) -> (steps: Vec<MediaStep>)
        ensures
            steps@ == steps_spec(*old(self), MediaEvent::EarDetection(old_places@, new_places@)),
            *final(self) == media_state_after(
                *old(self),
                MediaEvent::EarDetection(old_places@, new_places@),
            ),
    {
        let before: usize = count_in_ear(old_places);
        let now: usize = count_in_ear(new_places);
        let mut steps: Vec<MediaStep> = Vec::new();
        if now < before {
            steps.push(MediaStep::PauseAll);
            if now == 0 {
                steps.push(MediaStep::DeactivateProfile);
            }
            self.paused_by_us = true;
        } else if now > before {
            if before == 0 {
                steps.push(MediaStep::ActivateProfile);
            }
            if now == new_places.len() && self.paused_by_us {
                steps.push(MediaStep::Resume);
                self.paused_by_us = false;
            }
        }
        assert(steps@ =~= ear_detection_steps(*old(self), old_places@, new_places@));
        steps
    }

    /// Takes word of whether the wearer is speaking.
    pub fn handle_conversational_awareness(&mut self, speaking: bool) -> (steps: Vec<MediaStep>)
        ensures
            steps@ == steps_spec(*old(self), MediaEvent::ConversationalAwareness(speaking)),
            *final(self) == media_state_after(*old(self), MediaEvent::ConversationalAwareness(speaking)),
    {
        let mut steps: Vec<MediaStep> = Vec::new();
        if speaking && !self.lowered_by_us {
            steps.push(MediaStep::LowerVolume);
        } else if !speaking && self.lowered_by_us {
            steps.push(MediaStep::RestoreVolume);
        }
        self.lowered_by_us = speaking;
        assert(steps@ =~= steps_spec(*old(self), MediaEvent::ConversationalAwareness(speaking)));
        steps
    }

    /// Takes an action of a session. An action that is not for the media
    /// controller calls for nothing and changes nothing.
    pub fn steps_for(&mut self, action: &SessionAction) -> (steps: Vec<MediaStep>)
        ensures
            match media_event_of(*action) {
                Some(event) => steps@ == steps_spec(*old(self), event) && *final(self)
                    == media_state_after(*old(self), event),
                None => steps@ == Seq::<MediaStep>::empty() && *final(self) == *old(self),
            },
    {
        match action {
            SessionAction::HandleEarDetection(old_places, new_places) => {
                self.handle_ear_detection(old_places, new_places)
            },
            SessionAction::HandleConversationalAwareness(speaking) => {
                self.handle_conversational_awareness(*speaking)
            },
            SessionAction::PauseAllMedia => {
                self.paused_by_us = true;
                let steps: Vec<MediaStep> = vec![MediaStep::PauseAll];
                assert(steps@ =~= seq![MediaStep::PauseAll]);
                steps
            },
            SessionAction::DeactivateAudioProfile => {
                let steps: Vec<MediaStep> = vec![MediaStep::DeactivateProfile];
                assert(steps@ =~= seq![MediaStep::DeactivateProfile]);
                steps
            },
            SessionAction::HandOff(_) => Vec::new(),
        }
    }
}

/// The controller undoes only what it did itself: it resumes the players
/// only if it paused them, restores the volume only if it lowered it, and
/// never lowers a volume that it has lowered already.
pub proof fn lemma_undoes_only_its_own(state: MediaState, event: MediaEvent)
    ensures
        steps_spec(state, event).contains(MediaStep::Resume) ==> state.paused_by_us && !media_state_after(
            state,
            event,
        ).paused_by_us,
        steps_spec(state, event).contains(MediaStep::RestoreVolume) ==> state.lowered_by_us
            && !media_state_after(state, event).lowered_by_us,
        steps_spec(state, event).contains(MediaStep::LowerVolume) ==> !state.lowered_by_us
            && media_state_after(state, event).lowered_by_us,
        steps_spec(state, event).contains(MediaStep::PauseAll) ==> media_state_after(
            state,
            event,
        ).paused_by_us,
{
    let steps = steps_spec(state, event);
    if steps.contains(MediaStep::Resume) {
        let i = choose|i: int| 0 <= i < steps.len() && steps[i] == MediaStep::Resume;
    }
    if steps.contains(MediaStep::RestoreVolume) {
        let i = choose|i: int| 0 <= i < steps.len() && steps[i] == MediaStep::RestoreVolume;
    }
    if steps.contains(MediaStep::LowerVolume) {
        let i = choose|i: int| 0 <= i < steps.len() && steps[i] == MediaStep::LowerVolume;
    }
    if steps.contains(MediaStep::PauseAll) {
        let i = choose|i: int| 0 <= i < steps.len() && steps[i] == MediaStep::PauseAll;
    }
}

} // verus!
