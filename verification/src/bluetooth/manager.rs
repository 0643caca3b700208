use crate::bluetooth::aacp::{
    decode, decode_spec, AACPEvent, ControlCommandIdentifiers, ControlCommandStatusView, EventView,
};
use crate::bluetooth::router::{
    actions_for, actions_spec, actions_view, decode_event, deliveries_for, deliveries_spec,
    deliveries_view, event_of, event_option_view, state_after_event, AACPManagerState, ActionView,
    Delivery, DeliveryView, SessionAction, SessionView,
};
use crate::bluetooth::session::{
    dispatch_step_spec, lemma_subscribers_are_registered, queue_after_step, subscribers_spec,
    with_subscription, without_subscriber, CommandDispatcher, DispatchStep, HandshakeAction,
    HandshakeSequencer, HandshakeState, SequencerView, Subscription, SubscriptionRegistry,
};
use vstd::prelude::*;

verus! {

/// What routing one inbound frame yields.
#[derive(Debug)]
pub struct RouteOutcome {
    /// The event for the general stream, if the frame stands for one.
    pub event: Option<AACPEvent>,
    /// What goes to which subscriber.
    pub deliveries: Vec<Delivery>,
    /// What the collaborators of the session are asked to do, in this order.
    pub actions: Vec<SessionAction>,
}

/// The outcome of routing over plain values.
pub struct RouteOutcomeView {
    pub event: Option<EventView>,
    pub deliveries: Seq<DeliveryView>,
    pub actions: Seq<ActionView>,
}

impl View for RouteOutcome {
    type V = RouteOutcomeView;

    open spec fn view(&self) -> RouteOutcomeView {
        RouteOutcomeView {
            event: event_option_view(self.event),
            deliveries: deliveries_view(self.deliveries@),
            actions: actions_view(self.actions@),
        }
    }
}

/// A session over plain values.
pub struct ManagerView {
    pub state: SessionView,
    pub subscriptions: Seq<Subscription>,
    pub queue: Seq<ControlCommandStatusView>,
    pub handshake: SequencerView,
}

/// The outcome of a frame that stands for no event.
pub open spec fn no_outcome() -> RouteOutcomeView {
    RouteOutcomeView { event: None, deliveries: Seq::empty(), actions: Seq::empty() }
}

/// The command that gives the audio route up.
pub open spec fn release_ownership_command() -> ControlCommandStatusView {
    ControlCommandStatusView {
        identifier: ControlCommandIdentifiers::OwnsConnection,
        value: seq![0x00u8],
    }
}

/// The queue of outgoing commands after an event: the request to give the
/// audio route up queues the command that does so.
pub open spec fn queue_after_event(
    queue: Seq<ControlCommandStatusView>,
    event: EventView,
) -> Seq<ControlCommandStatusView> {
    if event is OwnershipToFalseRequest {
        queue.push(release_ownership_command())
    } else {
        queue
    }
}

/// The session after an event.
pub open spec fn manager_after_event(manager: ManagerView, event: EventView) -> ManagerView {
    ManagerView {
        state: state_after_event(manager.state, event),
        queue: queue_after_event(manager.queue, event),
        ..manager
    }
}

/// The outcome of an event.
pub open spec fn outcome_of_event(
    manager: ManagerView,
    event: EventView,
    local_mac: [u8; 6],
) -> RouteOutcomeView {
    RouteOutcomeView {
        event: Some(event),
        deliveries: deliveries_spec(manager.subscriptions, event),
        actions: actions_spec(event, local_mac),
    }
}

/// The event that a frame stands for. Bytes that are no frame stand for
/// none: they are dropped where they arrive.
pub open spec fn event_of_frame(state: SessionView, frame: Seq<u8>) -> Option<EventView> {
    match decode_spec(frame) {
        Ok(packet) => event_of(state, packet),
        Err(_) => None,
    }
}

/// The session after one inbound frame.
pub open spec fn manager_after_frame(manager: ManagerView, frame: Seq<u8>) -> ManagerView {
    match event_of_frame(manager.state, frame) {
        Some(event) => manager_after_event(manager, event),
        None => manager,
    }
}

/// What routing one inbound frame yields.
pub open spec fn outcome_of_frame(
    manager: ManagerView,
    frame: Seq<u8>,
    local_mac: [u8; 6],
) -> RouteOutcomeView {
    match event_of_frame(manager.state, frame) {
        Some(event) => outcome_of_event(manager, event, local_mac),
        None => no_outcome(),
    }
}

/// One session with one accessory: its state, its listeners, its outgoing
/// commands and its bring-up sequence. The owner of the connection feeds it
/// what arrives and carries out what it asks for.
pub struct AACPManager {
    state: AACPManagerState,
    subscriptions: SubscriptionRegistry,
    dispatcher: CommandDispatcher,
    handshake: HandshakeSequencer,
}

impl View for AACPManager {
    type V = ManagerView;

    closed spec fn view(&self) -> ManagerView {
        ManagerView {
            state: self.state@,
            subscriptions: self.subscriptions@,
            queue: self.dispatcher@,
            handshake: self.handshake@,
        }
    }
}

impl AACPManager {
    /// A session that has neither sent nor heard anything.
    pub fn new() -> (manager: Self)
        ensures
            manager@.state == (SessionView {
                battery: Seq::empty(),
                control_status: Seq::empty(),
                ownership: false,
                conversation_awareness: false,
                ear_detection: Seq::empty(),
                connected_devices: Seq::empty(),
            }),
            manager@.subscriptions == Seq::<Subscription>::empty(),
            manager@.queue == Seq::<ControlCommandStatusView>::empty(),
            manager@.handshake.state == HandshakeState::Idle,
            manager@.handshake.failures == 0,
    {
        AACPManager {
            state: AACPManagerState::new(),
            subscriptions: SubscriptionRegistry::new(),
            dispatcher: CommandDispatcher::new(),
            handshake: HandshakeSequencer::new(),
        }
    }

    /// What the session knows of its accessory.
    pub fn state(&self) -> (state: &AACPManagerState)
        ensures
            state@ == self@.state,
    {
        &self.state
    }

    /// Where the bring-up sequence stands.
    pub fn handshake_state(&self) -> (state: HandshakeState)
        ensures
            state == self@.handshake.state,
    {
        self.handshake.state()
    }

    /// Takes the next step of the bring-up sequence.
    pub fn advance_handshake(&mut self) -> (action: HandshakeAction)
        ensures
            action@ == old(self)@.handshake.state.action_spec(),
            final(self)@.handshake.state == old(self)@.handshake.state.next_spec(),
            final(self)@.handshake.failures == old(self)@.handshake.failures,
            final(self)@.state == old(self)@.state,
            final(self)@.subscriptions == old(self)@.subscriptions,
            final(self)@.queue == old(self)@.queue,
    {
        self.handshake.advance()
    }

    /// Notes that a write of the bring-up sequence failed.
    pub fn handshake_write_failed(&mut self)
        ensures
            final(self)@.handshake.state == old(self)@.handshake.state,
            final(self)@.handshake.failures == if old(self)@.handshake.failures < u64::MAX {
                old(self)@.handshake.failures + 1
            } else {
                old(self)@.handshake.failures
            },
            final(self)@.state == old(self)@.state,
            final(self)@.subscriptions == old(self)@.subscriptions,
            final(self)@.queue == old(self)@.queue,
    {
        self.handshake.write_failed()
    }

    /// Registers a listener for a setting. Returns whether the registration
    /// is new.
    pub fn subscribe_to_control_command(
        &mut self,
        identifier: ControlCommandIdentifiers,
        subscriber: u64,
    ) -> (added: bool)
        ensures
            final(self)@ == (ManagerView {
                subscriptions: with_subscription(
                    old(self)@.subscriptions,
                    Subscription { identifier, subscriber },
                ),
                ..old(self)@
            }),
            added == !old(self)@.subscriptions.contains(Subscription { identifier, subscriber }),
    {
        self.subscriptions.subscribe(identifier, subscriber)
    }

    /// Forgets a listener whose channel is gone.
    pub fn unsubscribe(&mut self, subscriber: u64)
        ensures
            final(self)@ == (ManagerView {
                subscriptions: without_subscriber(old(self)@.subscriptions, subscriber),
                ..old(self)@
            }),
    {
        self.subscriptions.unsubscribe(subscriber)
    }

    /// Queues a command for the accessory. This never waits.
    pub fn enqueue_control_command(&mut self, identifier: ControlCommandIdentifiers, value: Vec<u8>)
        ensures
            final(self)@ == (ManagerView {
                queue: old(self)@.queue.push(
                    ControlCommandStatusView { identifier, value: value@ },
                ),
                ..old(self)@
            }),
    {
        self.dispatcher.enqueue(identifier, value)
    }

    /// Takes the command that has waited longest and frames it for the wire.
    pub fn next_packet(&mut self) -> (step: DispatchStep)
        ensures
            step@ == dispatch_step_spec(old(self)@.queue),
            final(self)@ == (ManagerView {
                queue: queue_after_step(old(self)@.queue),
                ..old(self)@
            }),
    {
        self.dispatcher.next_packet()
    }

    /// Routes one inbound frame: reads it as an event, takes the event into
    /// the state, and says what goes to the general stream, to the
    /// subscribers and to the collaborators.
    pub fn receive(&mut self, frame: &[u8], local_mac: &[u8; 6]) -> (outcome: RouteOutcome)
        ensures
            outcome@ == outcome_of_frame(old(self)@, frame@, *local_mac),
            final(self)@ == manager_after_frame(old(self)@, frame@),
    {
        let packet = match decode(frame) {
            Ok(packet) => packet,
            Err(_) => {
                return self.nothing();
            },
        };
        let event = match decode_event(&self.state, &packet) {
            Some(event) => event,
            None => {
                return self.nothing();
            },
        };
        let deliveries = deliveries_for(&self.subscriptions, &event);
        let actions = actions_for(&event, local_mac);
        self.state.apply(&event);
        if let AACPEvent::OwnershipToFalseRequest = event {
            let value: Vec<u8> = vec![0x00u8];
            assert(value@ =~= seq![0x00u8]);
            self.dispatcher.enqueue(ControlCommandIdentifiers::OwnsConnection, value);
        }
        RouteOutcome { event: Some(event), deliveries, actions }
    }

    /// The outcome of a frame that stands for no event.
    fn nothing(&self) -> (outcome: RouteOutcome)
        ensures
            outcome@ == no_outcome(),
    {
        let outcome = RouteOutcome { event: None, deliveries: Vec::new(), actions: Vec::new() };
        assert(outcome@.deliveries =~= Seq::<DeliveryView>::empty());
        assert(outcome@.actions =~= Seq::<ActionView>::empty());
        outcome
    }
}

/// The value of a reported setting reaches exactly the listeners of that
/// setting, each of them unchanged: a listener is among the receivers if and
/// only if it is registered for the setting that was reported.
pub proof fn lemma_delivery_reaches_subscribers(
    subscriptions: Seq<Subscription>,
    status: ControlCommandStatusView,
    subscriber: u64,
)
    ensures
        deliveries_spec(subscriptions, EventView::ControlCommand(status)).contains(
            DeliveryView { subscriber, value: status.value },
        ) <==> subscriptions.contains(Subscription { identifier: status.identifier, subscriber }),
        forall|i: int|
            0 <= i < deliveries_spec(subscriptions, EventView::ControlCommand(status)).len()
                ==> (#[trigger] deliveries_spec(
                subscriptions,
                EventView::ControlCommand(status),
            )[i]).value == status.value,
{
    let listeners = subscribers_spec(subscriptions, status.identifier);
    let deliveries = deliveries_spec(subscriptions, EventView::ControlCommand(status));
    let wanted = DeliveryView { subscriber, value: status.value };
    lemma_subscribers_are_registered(subscriptions, status.identifier, subscriber);
    if deliveries.contains(wanted) {
        let i = choose|i: int| 0 <= i < deliveries.len() && deliveries[i] == wanted;
        assert(listeners[i] == subscriber);
    }
    if listeners.contains(subscriber) {
        let i = choose|i: int| 0 <= i < listeners.len() && listeners[i] == subscriber;
        assert(deliveries[i] == wanted);
    }
}

} // verus!
