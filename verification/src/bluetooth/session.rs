use crate::bluetooth::aacp::{
    control_command_packet, control_command_payload_spec, encode_spec, feature_flags_payload,
    frame_spec, handshake_packet, handshake_payload, key_request_mask,
    notification_request_packet, notifications_payload, proximity_keys_request_packet,
    set_feature_flags_packet, vendor_init_packet, vendor_init_payload, ControlCommandIdentifiers,
    ControlCommandStatus, ControlCommandStatusView, FormatError, Opcode, ProximityKeyType,
};
use vstd::prelude::*;

verus! {

/// Where the bring-up sequence of a session stands.
#[derive(Debug, Clone, Copy, PartialEq, Eq, Structural)]
pub enum HandshakeState {
    Idle,
    HandshakeSent,
    FeatureFlagsSent,
    NotificationsRequested,
    InitPacketSent,
    ProximityKeysRequested,
    Ready,
}

/// What the driver of a session does for one step of the bring-up sequence.
#[derive(Debug)]
pub enum HandshakeAction {
    /// Write the packet, then let the accessory settle for so many
    /// milliseconds before the next step.
    Write { packet: Vec<u8>, settle_ms: u64 },
    /// The sequence has just ended; nothing is written.
    Finish,
    /// The sequence ended before; nothing is left to do.
    Nothing,
}

/// A step of the bring-up sequence over plain values.
pub enum HandshakeActionView {
    Write { packet: Seq<u8>, settle_ms: u64 },
    Finish,
    Nothing,
}

impl View for HandshakeAction {
    type V = HandshakeActionView;

    open spec fn view(&self) -> HandshakeActionView {
        match self {
            HandshakeAction::Write { packet, settle_ms } => HandshakeActionView::Write {
                packet: packet@,
                settle_ms: *settle_ms,
            },
            HandshakeAction::Finish => HandshakeActionView::Finish,
            HandshakeAction::Nothing => HandshakeActionView::Nothing,
        }
    }
}

/// The accessory needs this long after each write of the sequence.
pub const SETTLE_DELAY_MS: u64 = 100;

/// The key types that the sequence asks for, in this order.
pub open spec fn requested_key_types() -> Seq<ProximityKeyType> {
    seq![ProximityKeyType::Irk, ProximityKeyType::EncKey]
}

impl HandshakeState {
    /// The state that follows this one. `Ready` follows itself.
    pub open spec fn next_spec(self) -> HandshakeState {
        match self {
            HandshakeState::Idle => HandshakeState::HandshakeSent,
            HandshakeState::HandshakeSent => HandshakeState::FeatureFlagsSent,
            HandshakeState::FeatureFlagsSent => HandshakeState::NotificationsRequested,
            HandshakeState::NotificationsRequested => HandshakeState::InitPacketSent,
            HandshakeState::InitPacketSent => HandshakeState::ProximityKeysRequested,
            HandshakeState::ProximityKeysRequested => HandshakeState::Ready,
            HandshakeState::Ready => HandshakeState::Ready,
        }
    }

    /// How many steps of the sequence lie behind this state.
    pub open spec fn rank(self) -> nat {
        match self {
            HandshakeState::Idle => 0,
            HandshakeState::HandshakeSent => 1,
            HandshakeState::FeatureFlagsSent => 2,
            HandshakeState::NotificationsRequested => 3,
            HandshakeState::InitPacketSent => 4,
            HandshakeState::ProximityKeysRequested => 5,
            HandshakeState::Ready => 6,
        }
    }

    /// What leaving this state takes: each of the first five states writes
    /// its packet, the sixth only ends the sequence.
    pub open spec fn action_spec(self) -> HandshakeActionView {
        match self {
            HandshakeState::Idle => HandshakeActionView::Write {
                packet: frame_spec(Opcode::Handshake, handshake_payload()),
                settle_ms: SETTLE_DELAY_MS,
            },
            HandshakeState::HandshakeSent => HandshakeActionView::Write {
                packet: frame_spec(Opcode::SetFeatureFlags, feature_flags_payload()),
                settle_ms: SETTLE_DELAY_MS,
            },
            HandshakeState::FeatureFlagsSent => HandshakeActionView::Write {
                packet: frame_spec(Opcode::RequestNotifications, notifications_payload()),
                settle_ms: SETTLE_DELAY_MS,
            },
            HandshakeState::NotificationsRequested => HandshakeActionView::Write {
                packet: frame_spec(Opcode::VendorInit, vendor_init_payload()),
                settle_ms: SETTLE_DELAY_MS,
            },
            HandshakeState::InitPacketSent => HandshakeActionView::Write {
                packet: frame_spec(
                    Opcode::ProximityKeysRequest,
                    seq![key_request_mask(requested_key_types())],
                ),
                settle_ms: SETTLE_DELAY_MS,
            },
            HandshakeState::ProximityKeysRequested => HandshakeActionView::Finish,
            HandshakeState::Ready => HandshakeActionView::Nothing,
        }
    }

    /// The state that follows this one.
    pub fn next(&self) -> (state: HandshakeState)
        ensures
            state == self.next_spec(),
    {
        match self {
            HandshakeState::Idle => HandshakeState::HandshakeSent,
            HandshakeState::HandshakeSent => HandshakeState::FeatureFlagsSent,
            HandshakeState::FeatureFlagsSent => HandshakeState::NotificationsRequested,
            HandshakeState::NotificationsRequested => HandshakeState::InitPacketSent,
            HandshakeState::InitPacketSent => HandshakeState::ProximityKeysRequested,
            HandshakeState::ProximityKeysRequested => HandshakeState::Ready,
            HandshakeState::Ready => HandshakeState::Ready,
        }
    }
}

/// The state after `steps` steps from `state`.
pub open spec fn state_after(state: HandshakeState, steps: nat) -> HandshakeState
    decreases steps,
{
    if steps == 0 {
        state
    } else {
        state_after(state.next_spec(), (steps - 1) as nat)
    }
}

/// Drives the bring-up sequence of one session. A failed write is counted
/// and changes nothing else: the sequence goes on.
pub struct HandshakeSequencer {
    state: HandshakeState,
    failures: u64,
}

/// A sequencer over plain values.
pub struct SequencerView {
    pub state: HandshakeState,
    pub failures: nat,
}

impl View for HandshakeSequencer {
    type V = SequencerView;

    closed spec fn view(&self) -> SequencerView {
        SequencerView { state: self.state, failures: self.failures as nat }
    }
}

impl HandshakeSequencer {
    /// A sequencer that has not started.
    pub fn new() -> (sequencer: Self)
        ensures
            sequencer@.state == HandshakeState::Idle,
            sequencer@.failures == 0,
    {
        HandshakeSequencer { state: HandshakeState::Idle, failures: 0 }
    }

    /// Where the sequence stands.
    pub fn state(&self) -> (state: HandshakeState)
        ensures
            state == self@.state,
    {
        self.state
    }

    /// How many writes of the sequence failed, as far as the counter holds.
    pub fn failures(&self) -> (count: u64)
        ensures
            count == self@.failures,
    {
        self.failures
    }

    /// Whether the sequence has ended.
    pub fn is_ready(&self) -> (ready: bool)
        ensures
            ready == (self@.state == HandshakeState::Ready),
    {
        self.state == HandshakeState::Ready
    }

    /// Takes the next step: says what to do and moves on, whether or not the
    /// write of the step before went through.
    pub fn advance(&mut self) -> (action: HandshakeAction)
        ensures
            action@ == old(self)@.state.action_spec(),
            final(self)@.state == old(self)@.state.next_spec(),
            final(self)@.failures == old(self)@.failures,
    {
        let action = match self.state {
            HandshakeState::Idle => HandshakeAction::Write {
                packet: handshake_packet(),
                settle_ms: SETTLE_DELAY_MS,
            },
            HandshakeState::HandshakeSent => HandshakeAction::Write {
                packet: set_feature_flags_packet(),
                settle_ms: SETTLE_DELAY_MS,
            },
            HandshakeState::FeatureFlagsSent => HandshakeAction::Write {
                packet: notification_request_packet(),
                settle_ms: SETTLE_DELAY_MS,
            },
            HandshakeState::NotificationsRequested => HandshakeAction::Write {
                packet: vendor_init_packet(),
                settle_ms: SETTLE_DELAY_MS,
            },
            HandshakeState::InitPacketSent => {
                let types: [ProximityKeyType; 2] = [ProximityKeyType::Irk, ProximityKeyType::EncKey];
                assert(types@ =~= requested_key_types());
                HandshakeAction::Write {
                    packet: proximity_keys_request_packet(types.as_slice()),
                    settle_ms: SETTLE_DELAY_MS,
                }
            },
            HandshakeState::ProximityKeysRequested => HandshakeAction::Finish,
            HandshakeState::Ready => HandshakeAction::Nothing,
        };
        self.state = self.state.next();
        action
    }

    /// Notes that a write of the sequence failed. The sequence stays where it
    /// is; the counter stops at its largest value.
    pub fn write_failed(&mut self)
        ensures
            final(self)@.state == old(self)@.state,
            final(self)@.failures == if old(self)@.failures < u64::MAX {
                old(self)@.failures + 1
            } else {
                old(self)@.failures
            },
    {
        if self.failures < u64::MAX {
            self.failures = self.failures + 1;
        }
    }
}

/// Six steps end the sequence from any state, and from `Idle` no fewer do:
/// every step moves exactly one state on, whatever happened to the writes.
pub proof fn lemma_handshake_reaches_ready(state: HandshakeState, steps: nat)
    ensures
        state_after(state, 6) == HandshakeState::Ready,
        state_after(state, steps).rank() == if state.rank() + steps <= 6 {
            state.rank() + steps
        } else {
            6
        },
        state_after(HandshakeState::Idle, steps) == HandshakeState::Ready <==> steps >= 6,
{
    lemma_rank_steps(state, 6);
    lemma_rank_steps(state, steps);
    lemma_rank_steps(HandshakeState::Idle, steps);
}

proof fn lemma_rank_steps(state: HandshakeState, steps: nat)
    ensures
        state_after(state, steps).rank() == if state.rank() + steps <= 6 {
            state.rank() + steps
        } else {
            6
        },
    decreases steps,
{
    if steps > 0 {
        lemma_rank_steps(state.next_spec(), (steps - 1) as nat);
    }
}

/// The commands of a queue over plain values.
pub open spec fn commands_view(commands: Seq<ControlCommandStatus>) -> Seq<
    ControlCommandStatusView,
> {
    commands.map_values(|c: ControlCommandStatus| c@)
}

/// Holds outgoing control commands until the single writer of the session
/// takes them, first in, first out.
pub struct CommandDispatcher {
    queue: Vec<ControlCommandStatus>,
}

impl View for CommandDispatcher {
    type V = Seq<ControlCommandStatusView>;

    closed spec fn view(&self) -> Seq<ControlCommandStatusView> {
        commands_view(self.queue@)
    }
}

/// What the writer does next.
#[derive(Debug)]
pub enum DispatchStep {
    /// Nothing is queued.
    Idle,
    /// Write this packet.
    Send(Vec<u8>),
    /// The command at the head of the queue cannot be framed; it is dropped.
    Rejected(FormatError),
}

/// A step of the writer over plain values.
pub enum DispatchStepView {
    Idle,
    Send(Seq<u8>),
    Rejected(FormatError),
}

impl View for DispatchStep {
    type V = DispatchStepView;

    open spec fn view(&self) -> DispatchStepView {
        match self {
            DispatchStep::Idle => DispatchStepView::Idle,
            DispatchStep::Send(packet) => DispatchStepView::Send(packet@),
            DispatchStep::Rejected(error) => DispatchStepView::Rejected(*error),
        }
    }
}

/// What the writer does for the command at the head of the queue.
pub open spec fn dispatch_step_spec(queue: Seq<ControlCommandStatusView>) -> DispatchStepView {
    if queue.len() == 0 {
        DispatchStepView::Idle
    } else {
        match encode_spec(
            Opcode::ControlCommand,
            control_command_payload_spec(queue[0].identifier, queue[0].value),
        ) {
            Ok(packet) => DispatchStepView::Send(packet),
            Err(error) => DispatchStepView::Rejected(error),
        }
    }
}

/// The queue once its head has been taken.
pub open spec fn queue_after_step(queue: Seq<ControlCommandStatusView>) -> Seq<
    ControlCommandStatusView,
> {
    if queue.len() == 0 {
        queue
    } else {
        queue.subrange(1, queue.len() as int)
    }
}

impl CommandDispatcher {
    /// A dispatcher with nothing queued.
    pub fn new() -> (dispatcher: Self)
        ensures
            dispatcher@ == Seq::<ControlCommandStatusView>::empty(),
    {
        let dispatcher = CommandDispatcher { queue: Vec::new() };
        assert(dispatcher@ =~= Seq::<ControlCommandStatusView>::empty());
        dispatcher
    }

    /// How many commands wait.
    pub fn len(&self) -> (count: usize)
        ensures
            count == self@.len(),
    {
        self.queue.len()
    }

    /// Queues a command behind those that wait already.
    pub fn enqueue(&mut self, identifier: ControlCommandIdentifiers, value: Vec<u8>)
        ensures
            final(self)@ == old(self)@.push(
                ControlCommandStatusView { identifier, value: value@ },
            ),
    {
        let command = ControlCommandStatus { identifier, value };
        self.queue.push(command);
        assert(final(self)@ =~= old(self)@.push(
            ControlCommandStatusView { identifier, value: value@ },
        ));
    }

    /// Takes the command that has waited longest.
    pub fn next_command(&mut self) -> (command: Option<ControlCommandStatus>)
        ensures
            final(self)@ == queue_after_step(old(self)@),
            match command {
                Some(c) => old(self)@.len() > 0 && c@ == old(self)@[0],
                None => old(self)@.len() == 0,
            },
    {
        if self.queue.len() == 0 {
            return None;
        }
        let command = self.queue.remove(0);
        assert(final(self)@ =~= queue_after_step(old(self)@));
        Some(command)
    }

    /// Takes the command that has waited longest and frames it for the wire.
    pub fn next_packet(&mut self) -> (step: DispatchStep)
        ensures
            step@ == dispatch_step_spec(old(self)@),
            final(self)@ == queue_after_step(old(self)@),
    {
        match self.next_command() {
            None => DispatchStep::Idle,
            Some(command) => match control_command_packet(
                command.identifier,
                command.value.as_slice(),
            ) {
                Ok(packet) => DispatchStep::Send(packet),
                Err(error) => DispatchStep::Rejected(error),
            },
        }
    }
}

/// The commands that leave a queue, in the order in which they leave.
pub open spec fn drained(queue: Seq<ControlCommandStatusView>) -> Seq<ControlCommandStatusView>
    decreases queue.len(),
{
    if queue.len() == 0 {
        Seq::empty()
    } else {
        seq![queue[0]] + drained(queue_after_step(queue))
    }
}

/// A queue after the commands have been queued one after the other.
pub open spec fn enqueued(
    queue: Seq<ControlCommandStatusView>,
    commands: Seq<ControlCommandStatusView>,
) -> Seq<ControlCommandStatusView>
    decreases commands.len(),
{
    if commands.len() == 0 {
        queue
    } else {
        enqueued(queue.push(commands[0]), commands.subrange(1, commands.len() as int))
    }
}

/// First in, first out: whatever waits in a queue leaves it in the order in
/// which it was queued, ahead of everything that is queued later.
pub proof fn lemma_dispatch_is_fifo(
    queue: Seq<ControlCommandStatusView>,
    commands: Seq<ControlCommandStatusView>,
)
    ensures
        drained(queue) == queue,
        enqueued(queue, commands) == queue + commands,
        drained(enqueued(queue, commands)) == queue + commands,
        drained(enqueued(Seq::empty(), commands)) == commands,
{
    lemma_drained_is_queue(queue);
    lemma_enqueued_appends(queue, commands);
    lemma_drained_is_queue(queue + commands);
    lemma_enqueued_appends(Seq::empty(), commands);
    assert(Seq::<ControlCommandStatusView>::empty() + commands =~= commands);
    lemma_drained_is_queue(commands);
}

proof fn lemma_drained_is_queue(queue: Seq<ControlCommandStatusView>)
    ensures
        drained(queue) == queue,
    decreases queue.len(),
{
    if queue.len() > 0 {
        lemma_drained_is_queue(queue_after_step(queue));
        assert(seq![queue[0]] + queue_after_step(queue) =~= queue);
    } else {
        assert(drained(queue) =~= queue);
    }
}

proof fn lemma_enqueued_appends(
    queue: Seq<ControlCommandStatusView>,
    commands: Seq<ControlCommandStatusView>,
)
    ensures
        enqueued(queue, commands) == queue + commands,
    decreases commands.len(),
{
    if commands.len() > 0 {
        let rest = commands.subrange(1, commands.len() as int);
        lemma_enqueued_appends(queue.push(commands[0]), rest);
        assert(queue.push(commands[0]) + rest =~= queue + commands);
    } else {
        assert(queue + commands =~= queue);
    }
}

/// One listener's interest in one setting. The subscriber is the handle
/// under which the owner of the session keeps the listener's channel.
#[derive(Debug, Clone, Copy, PartialEq, Eq, Structural)]
pub struct Subscription {
    pub identifier: ControlCommandIdentifiers,
    pub subscriber: u64,
}

/// The subscribers of one setting, in the order in which they registered.
pub open spec fn subscribers_spec(
    entries: Seq<Subscription>,
    identifier: ControlCommandIdentifiers,
) -> Seq<u64> {
    entries.filter(|e: Subscription| e.identifier == identifier).map_values(
        |e: Subscription| e.subscriber,
    )
}

/// The registrations that are left once a subscriber is gone.
pub open spec fn without_subscriber(entries: Seq<Subscription>, subscriber: u64) -> Seq<
    Subscription,
> {
    entries.filter(|e: Subscription| e.subscriber != subscriber)
}

/// The registrations after one more: a registration that exists already is
/// not made twice.
pub open spec fn with_subscription(entries: Seq<Subscription>, entry: Subscription) -> Seq<
    Subscription,
> {
    if entries.contains(entry) {
        entries
    } else {
        entries.push(entry)
    }
}

/// Who listens to which setting.
pub struct SubscriptionRegistry {
    entries: Vec<Subscription>,
}

impl View for SubscriptionRegistry {
    type V = Seq<Subscription>;

    closed spec fn view(&self) -> Seq<Subscription> {
        self.entries@
    }
}

impl SubscriptionRegistry {
    #[verifier::type_invariant]
    spec fn no_registration_twice(self) -> bool {
        self.entries@.no_duplicates()
    }

    /// A registry without listeners.
    pub fn new() -> (registry: Self)
        ensures
            registry@ == Seq::<Subscription>::empty(),
    {
        SubscriptionRegistry { entries: Vec::new() }
    }

    /// Tells whether the subscriber is registered for the setting.
    pub fn is_subscribed(&self, identifier: ControlCommandIdentifiers, subscriber: u64) -> (found:
        bool)
        ensures
            found == self@.contains(Subscription { identifier, subscriber }),
    {
        let ghost entry = Subscription { identifier, subscriber };
        let mut i: usize = 0;
        while i < self.entries.len()
            invariant
                i <= self.entries@.len(),
                entry == (Subscription { identifier, subscriber }),
                forall|j: int| 0 <= j < i ==> self.entries@[j] != entry,
            decreases self.entries@.len() - i,
        {
            if self.entries[i].identifier == identifier && self.entries[i].subscriber == subscriber {
                return true;
            }
            i += 1;
        }
        false
    }

    /// Registers the subscriber for the setting. Returns whether the
    /// registration is new.
    pub fn subscribe(&mut self, identifier: ControlCommandIdentifiers, subscriber: u64) -> (added:
        bool)
        ensures
            final(self)@ == with_subscription(old(self)@, Subscription { identifier, subscriber }),
            added == !old(self)@.contains(Subscription { identifier, subscriber }),
            final(self)@.contains(Subscription { identifier, subscriber }),
            final(self)@.no_duplicates(),
    {
        proof {
            use_type_invariant(&*self);
        }
        if self.is_subscribed(identifier, subscriber) {
            return false;
        }
        let ghost before = self.entries@;
        let entry = Subscription { identifier, subscriber };
        let mut entries: Vec<Subscription> = Vec::new();
        std::mem::swap(&mut entries, &mut self.entries);
        entries.push(entry);
        assert(entries@.no_duplicates()) by {
            assert forall|a: int, b: int|
                0 <= a < entries@.len() && 0 <= b < entries@.len() && a != b implies entries@[a]
                != entries@[b] by {
                if a < before.len() && b < before.len() {
                    assert(before[a] != before[b]);
                } else if a < before.len() {
                    assert(before.contains(before[a]));
                } else {
                    assert(before.contains(before[b]));
                }
            }
        }
        assert(entries@[entries@.len() - 1] == entry);
        self.entries = entries;
        true
    }

    /// Forgets every registration of the subscriber, whose channel is gone.
    pub fn unsubscribe(&mut self, subscriber: u64)
        ensures
            final(self)@ == without_subscriber(old(self)@, subscriber),
            final(self)@.no_duplicates(),
    {
        proof {
            use_type_invariant(&*self);
        }
        let ghost before = self.entries@;
        let ghost keep = |e: Subscription| e.subscriber != subscriber;
        let mut kept: Vec<Subscription> = Vec::new();
        let mut i: usize = 0;
        assert(before.take(0) =~= Seq::<Subscription>::empty());
        proof {
            reveal(Seq::filter);
        }
        while i < self.entries.len()
            invariant
                i <= self.entries@.len(),
                before == self.entries@,
                before.no_duplicates(),
                keep == |e: Subscription| e.subscriber != subscriber,
                kept@ == before.take(i as int).filter(keep),
            decreases self.entries@.len() - i,
        {
            let entry = self.entries[i];
            proof {
                reveal(Seq::filter);
                assert(before.take(i + 1).drop_last() =~= before.take(i as int));
                assert(before.take(i + 1).last() == entry);
            }
            if entry.subscriber != subscriber {
                kept.push(entry);
            }
            i += 1;
        }
        assert(before.take(i as int) =~= before);
        proof {
            lemma_filter_keeps_distinct(before, keep);
        }
        self.entries = kept;
    }

    /// The subscribers of a setting, in the order in which they registered.
    pub fn subscribers(&self, identifier: ControlCommandIdentifiers) -> (listeners: Vec<u64>)
        ensures
            listeners@ == subscribers_spec(self@, identifier),
    {
        let ghost wanted = |e: Subscription| e.identifier == identifier;
        let ghost handle = |e: Subscription| e.subscriber;
        let mut out: Vec<u64> = Vec::new();
        let mut i: usize = 0;
        assert(self.entries@.take(0) =~= Seq::<Subscription>::empty());
        proof {
            reveal(Seq::filter);
        }
        assert(self.entries@.take(0).filter(wanted).map_values(handle) =~= Seq::<u64>::empty());
        while i < self.entries.len()
            invariant
                i <= self.entries@.len(),
                wanted == |e: Subscription| e.identifier == identifier,
                handle == |e: Subscription| e.subscriber,
                out@ == self.entries@.take(i as int).filter(wanted).map_values(handle),
            decreases self.entries@.len() - i,
        {
            let entry = self.entries[i];
            proof {
                reveal(Seq::filter);
                let shorter = self.entries@.take(i as int);
                let longer = self.entries@.take(i + 1);
                assert(longer.drop_last() =~= shorter);
                assert(longer.last() == entry);
                if wanted(entry) {
                    assert(longer.filter(wanted) == shorter.filter(wanted).push(entry));
                    assert(longer.filter(wanted).map_values(handle) =~= shorter.filter(
                        wanted,
                    ).map_values(handle).push(entry.subscriber));
                }
            }
            if entry.identifier == identifier {
                out.push(entry.subscriber);
            }
            i += 1;
        }
        assert(self.entries@.take(i as int) =~= self.entries@);
        out
    }
}

/// What is left of a list without duplicates has none either.
proof fn lemma_filter_keeps_distinct(entries: Seq<Subscription>, keep: spec_fn(Subscription) -> bool)
    requires
        entries.no_duplicates(),
    ensures
        entries.filter(keep).no_duplicates(),
    decreases entries.len(),
{
    reveal(Seq::filter);
    if entries.len() > 0 {
        let shorter = entries.drop_last();
        lemma_filter_keeps_distinct(shorter, keep);
        if keep(entries.last()) {
            let kept = shorter.filter(keep);
            assert forall|a: int, b: int|
                0 <= a < kept.len() + 1 && 0 <= b < kept.len() + 1 && a != b implies kept.push(
                entries.last(),
            )[a] != kept.push(entries.last())[b] by {
                if a < kept.len() && b < kept.len() {
                } else {
                    let other = if a < kept.len() {
                        a
                    } else {
                        b
                    };
                    lemma_filter_member(shorter, keep, other);
                    let k = choose|k: int| 0 <= k < shorter.len() && shorter[k] == kept[other];
                    assert(entries[k] == shorter[k]);
                    assert(entries[entries.len() - 1] == entries.last());
                }
            }
        }
    }
}

/// Whatever a filter keeps stood in the list.
proof fn lemma_filter_member(entries: Seq<Subscription>, keep: spec_fn(Subscription) -> bool, i: int)
    requires
        0 <= i < entries.filter(keep).len(),
    ensures
        exists|k: int| 0 <= k < entries.len() && entries[k] == entries.filter(keep)[i],
        keep(entries.filter(keep)[i]),
    decreases entries.len(),
{
    reveal(Seq::filter);
    if entries.len() > 0 {
        let shorter = entries.drop_last();
        if i < shorter.filter(keep).len() {
            lemma_filter_member(shorter, keep, i);
            let k = choose|k: int| 0 <= k < shorter.len() && shorter[k] == shorter.filter(keep)[i];
            assert(entries[k] == shorter[k]);
        } else {
            assert(entries[entries.len() - 1] == entries.last());
        }
    }
}

/// Whatever stands in the list and passes the filter is kept.
proof fn lemma_filter_keeps(entries: Seq<Subscription>, keep: spec_fn(Subscription) -> bool, k: int)
    requires
        0 <= k < entries.len(),
        keep(entries[k]),
    ensures
        entries.filter(keep).contains(entries[k]),
    decreases entries.len(),
{
    reveal(Seq::filter);
    let shorter = entries.drop_last();
    if k < entries.len() - 1 {
        lemma_filter_keeps(shorter, keep, k);
        let i = choose|i: int| 0 <= i < shorter.filter(keep).len() && shorter.filter(keep)[i]
            == shorter[k];
        assert(entries.filter(keep)[i] == entries[k]);
    } else {
        let kept = entries.filter(keep);
        assert(kept[kept.len() - 1] == entries[k]);
    }
}

/// A listener hears of a setting exactly when it is registered for it: once
/// registered it is among the subscribers of its setting, and it is among
/// those of another setting only if it registered for that one too.
pub proof fn lemma_subscriber_hears_its_setting(
    entries: Seq<Subscription>,
    identifier: ControlCommandIdentifiers,
    subscriber: u64,
    published: ControlCommandIdentifiers,
)
    ensures
        subscribers_spec(
            with_subscription(entries, Subscription { identifier, subscriber }),
            identifier,
        ).contains(subscriber),
        subscribers_spec(entries, published).contains(subscriber) <==> entries.contains(
            Subscription { identifier: published, subscriber },
        ),
        published != identifier ==> (subscribers_spec(
            with_subscription(entries, Subscription { identifier, subscriber }),
            published,
        ).contains(subscriber) <==> entries.contains(
            Subscription { identifier: published, subscriber },
        )),
{
    let entry = Subscription { identifier, subscriber };
    let after = with_subscription(entries, entry);
    assert(after.contains(entry)) by {
        if !entries.contains(entry) {
            assert(after[after.len() - 1] == entry);
        }
    }
    lemma_subscribers_are_registered(after, identifier, subscriber);
    lemma_subscribers_are_registered(entries, published, subscriber);
    lemma_subscribers_are_registered(after, published, subscriber);
    if published != identifier {
        let other = Subscription { identifier: published, subscriber };
        if after.contains(other) {
            let k = choose|k: int| 0 <= k < after.len() && after[k] == other;
            assert(k < entries.len());
            assert(entries[k] == other);
        }
        if entries.contains(other) {
            let k = choose|k: int| 0 <= k < entries.len() && entries[k] == other;
            assert(after[k] == other);
        }
    }
}

/// The subscribers of a setting are those registered for it.
pub proof fn lemma_subscribers_are_registered(
    entries: Seq<Subscription>,
    identifier: ControlCommandIdentifiers,
    subscriber: u64,
)
    ensures
        subscribers_spec(entries, identifier).contains(subscriber) <==> entries.contains(
            Subscription { identifier, subscriber },
        ),
{
    let wanted = |e: Subscription| e.identifier == identifier;
    let handle = |e: Subscription| e.subscriber;
    let kept = entries.filter(wanted);
    let listeners = subscribers_spec(entries, identifier);
    let entry = Subscription { identifier, subscriber };
    if listeners.contains(subscriber) {
        let i = choose|i: int| 0 <= i < listeners.len() && listeners[i] == subscriber;
        lemma_filter_member(entries, wanted, i);
        assert(kept[i] == entry);
    }
    if entries.contains(entry) {
        let k = choose|k: int| 0 <= k < entries.len() && entries[k] == entry;
        lemma_filter_keeps(entries, wanted, k);
        let i = choose|i: int| 0 <= i < kept.len() && kept[i] == entry;
        assert(listeners[i] == subscriber);
    }
}

/// A listener whose channel is gone hears nothing more: after it has been
/// removed it is among the subscribers of no setting, and every other
/// listener stays where it was.
pub proof fn lemma_unsubscribed_hears_nothing(
    entries: Seq<Subscription>,
    subscriber: u64,
    published: ControlCommandIdentifiers,
    other: u64,
)
    ensures
        !subscribers_spec(without_subscriber(entries, subscriber), published).contains(subscriber),
        other != subscriber ==> (subscribers_spec(
            without_subscriber(entries, subscriber),
            published,
        ).contains(other) <==> subscribers_spec(entries, published).contains(other)),
{
    let keep = |e: Subscription| e.subscriber != subscriber;
    let after = without_subscriber(entries, subscriber);
    lemma_subscribers_are_registered(after, published, subscriber);
    lemma_subscribers_are_registered(after, published, other);
    lemma_subscribers_are_registered(entries, published, other);
    let gone = Subscription { identifier: published, subscriber };
    if after.contains(gone) {
        let i = choose|i: int| 0 <= i < after.len() && after[i] == gone;
        lemma_filter_member(entries, keep, i);
    }
    if other != subscriber {
        let entry = Subscription { identifier: published, subscriber: other };
        if after.contains(entry) {
            let i = choose|i: int| 0 <= i < after.len() && after[i] == entry;
            lemma_filter_member(entries, keep, i);
        }
        if entries.contains(entry) {
            let k = choose|k: int| 0 <= k < entries.len() && entries[k] == entry;
            lemma_filter_keeps(entries, keep, k);
        }
    }
}

} // verus!
