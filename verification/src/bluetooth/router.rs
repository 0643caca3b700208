use crate::bluetooth::aacp::{
    copy_bytes, decode_battery, decode_battery_spec, decode_connected_devices,
    decode_connected_devices_spec, decode_control_command, decode_control_command_spec,
    decode_ear_detection, decode_ear_detection_spec, decode_proximity_keys,
    decode_proximity_keys_spec, decode_single_byte, decode_single_byte_spec, distinct_components,
    add_peer_device_packet, frame_spec, is_speaking, media_information_packet, peer_payload,
    speaking_spec, AACPEvent, AacpPacket, BatteryInfo, ConnectedDeviceInfo,
    ControlCommandIdentifiers, ControlCommandStatus, ControlCommandStatusView, EarDetectionStatus,
    EventView, Opcode, PacketView,
};
use crate::bluetooth::session::{
    commands_view, subscribers_spec, Subscription, SubscriptionRegistry,
};
use vstd::prelude::*;
use vstd::slice::slice_to_vec;

verus! {

/// What a session knows of its accessory, over plain values.
pub struct SessionView {
    /// The latest battery event, one reading per component at most.
    pub battery: Seq<BatteryInfo>,
    /// The latest value of each setting that was reported, one entry per
    /// setting.
    pub control_status: Seq<ControlCommandStatusView>,
    /// Whether this host owns the audio route.
    pub ownership: bool,
    /// Whether the wearer was speaking when the accessory last said so.
    pub conversation_awareness: bool,
    /// Where the buds were when the accessory last said so.
    pub ear_detection: Seq<EarDetectionStatus>,
    /// The hosts that the accessory last listed.
    pub connected_devices: Seq<ConnectedDeviceInfo>,
}

/// Whether no two entries speak of the same setting.
pub open spec fn distinct_identifiers(list: Seq<ControlCommandStatusView>) -> bool {
    forall|i: int, j: int|
        0 <= i < j < list.len() ==> (#[trigger] list[i]).identifier != (
        #[trigger] list[j]).identifier
}

/// Where the entry of a setting stands in the list: the index of the first
/// entry with that setting, or the length of the list if there is none.
pub open spec fn position_of(
    list: Seq<ControlCommandStatusView>,
    identifier: ControlCommandIdentifiers,
) -> int
    decreases list.len(),
{
    if list.len() == 0 {
        0
    } else if list[0].identifier == identifier {
        0
    } else {
        1 + position_of(list.subrange(1, list.len() as int), identifier)
    }
}

/// The list with the value of one setting brought up to date: the entry of
/// the setting is replaced where it stands, a setting not yet listed is
/// added at the end.
pub open spec fn upsert_status(
    list: Seq<ControlCommandStatusView>,
    status: ControlCommandStatusView,
) -> Seq<ControlCommandStatusView> {
    let position = position_of(list, status.identifier);
    if position < list.len() {
        list.update(position, status)
    } else {
        list.push(status)
    }
}

/// Whether the value of the ownership setting says that this host owns the
/// audio route: a value without a first byte, or with a zero there, says no.
pub open spec fn owns_spec(value: Seq<u8>) -> bool {
    value.len() > 0 && value[0] != 0
}

/// Whether an event says that this host has just lost the audio route by a
/// report of the ownership setting.
pub open spec fn reports_lost_ownership(event: EventView) -> bool {
    event matches EventView::ControlCommand(status) && status.identifier
        == ControlCommandIdentifiers::OwnsConnection && !owns_spec(status.value)
}

/// What a session knows once it has seen the event. Each event replaces the
/// part of the state that it speaks of; nothing is merged.
pub open spec fn state_after_event(state: SessionView, event: EventView) -> SessionView {
    match event {
        EventView::EarDetection(_, places) => SessionView { ear_detection: places, ..state },
        EventView::BatteryInfo(readings) => SessionView { battery: readings, ..state },
        EventView::ControlCommand(status) => SessionView {
            control_status: upsert_status(state.control_status, status),
            ownership: if status.identifier == ControlCommandIdentifiers::OwnsConnection {
                owns_spec(status.value)
            } else {
                state.ownership
            },
            ..state
        },
        EventView::ConversationalAwareness(speaking) => SessionView {
            conversation_awareness: speaking,
            ..state
        },
        EventView::ConnectedDevices(_, devices) => SessionView {
            connected_devices: devices,
            ..state
        },
        EventView::OwnershipToFalseRequest => SessionView { ownership: false, ..state },
        EventView::ProximityKeys(_) => state,
    }
}

/// The event that a packet stands for, given what the session knew before.
/// A packet whose payload is not what its opcode promises, or whose opcode
/// the accessory never sends, stands for none.
pub open spec fn event_of(state: SessionView, packet: PacketView) -> Option<EventView> {
    match packet.identifier {
        Opcode::BatteryInfo => match decode_battery_spec(packet.payload) {
            Ok(readings) => Some(EventView::BatteryInfo(readings)),
            Err(_) => None,
        },
        Opcode::EarDetection => match decode_ear_detection_spec(packet.payload) {
            Ok(places) => Some(EventView::EarDetection(state.ear_detection, places)),
            Err(_) => None,
        },
        Opcode::ControlCommand => match decode_control_command_spec(packet.payload) {
            Ok(status) => Some(EventView::ControlCommand(status)),
            Err(_) => None,
        },
        Opcode::ConversationalAwareness => match decode_single_byte_spec(packet.payload) {
            Ok(byte) => Some(EventView::ConversationalAwareness(speaking_spec(byte))),
            Err(_) => None,
        },
        Opcode::ConnectedDevices => match decode_connected_devices_spec(packet.payload) {
            Ok(devices) => Some(EventView::ConnectedDevices(state.connected_devices, devices)),
            Err(_) => None,
        },
        Opcode::OwnershipRequest => match decode_single_byte_spec(packet.payload) {
            Ok(byte) => if byte == 0 {
                Some(EventView::OwnershipToFalseRequest)
            } else {
                None
            },
            Err(_) => None,
        },
        Opcode::ProximityKeysResponse => match decode_proximity_keys_spec(packet.payload) {
            Ok(keys) => Some(EventView::ProximityKeys(keys)),
            Err(_) => None,
        },
        _ => None,
    }
}

/// The view of an optional event.
pub open spec fn event_option_view(event: Option<AACPEvent>) -> Option<EventView> {
    match event {
        Some(e) => Some(e@),
        None => None,
    }
}

/// A copy of the list.
pub fn copy_list<T: Copy>(list: &Vec<T>) -> (out: Vec<T>)
    ensures
        out@ == list@,
{
    slice_to_vec(list.as_slice())
}

/// Tells whether a value of the ownership setting says that this host owns
/// the audio route.
pub fn owns(value: &Vec<u8>) -> (owned: bool)
    ensures
        owned == owns_spec(value@),
{
    value.len() > 0 && value[0] != 0
}

proof fn lemma_position_found(
    list: Seq<ControlCommandStatusView>,
    identifier: ControlCommandIdentifiers,
    index: int,
)
    requires
        0 <= index <= list.len(),
        forall|j: int| 0 <= j < index ==> (#[trigger] list[j]).identifier != identifier,
        index < list.len() ==> list[index].identifier == identifier,
    ensures
        position_of(list, identifier) == index,
    decreases list.len(),
{
    if list.len() > 0 && index > 0 {
        let rest = list.subrange(1, list.len() as int);
        assert forall|j: int| 0 <= j < index - 1 implies (#[trigger] rest[j]).identifier
            != identifier by {
            assert(rest[j] == list[j + 1]);
        }
        lemma_position_found(rest, identifier, index - 1);
    }
}

/// What a session knows of its accessory. Only the router of the session
/// changes it; everybody else reads.
pub struct AACPManagerState {
    battery_info: Vec<BatteryInfo>,
    control_command_status_list: Vec<ControlCommandStatus>,
    ownership: bool,
    conversation_awareness: bool,
    ear_detection_status: Vec<EarDetectionStatus>,
    connected_devices: Vec<ConnectedDeviceInfo>,
}

impl View for AACPManagerState {
    type V = SessionView;

    closed spec fn view(&self) -> SessionView {
        SessionView {
            battery: self.battery_info@,
            control_status: commands_view(self.control_command_status_list@),
            ownership: self.ownership,
            conversation_awareness: self.conversation_awareness,
            ear_detection: self.ear_detection_status@,
            connected_devices: self.connected_devices@,
        }
    }
}

/// Whether an event can be applied to a state: its battery readings speak of
/// each component once at most.
pub open spec fn event_wf(event: EventView) -> bool {
    event matches EventView::BatteryInfo(readings) ==> distinct_components(readings)
}

impl AACPManagerState {
    #[verifier::type_invariant]
    spec fn one_entry_each(self) -> bool {
        &&& distinct_components(self.battery_info@)
        &&& distinct_identifiers(commands_view(self.control_command_status_list@))
    }

    /// The state of a session that has heard nothing yet.
    pub fn new() -> (state: Self)
        ensures
            state@ == (SessionView {
                battery: Seq::empty(),
                control_status: Seq::empty(),
                ownership: false,
                conversation_awareness: false,
                ear_detection: Seq::empty(),
                connected_devices: Seq::empty(),
            }),
    {
        let state = AACPManagerState {
            battery_info: Vec::new(),
            control_command_status_list: Vec::new(),
            ownership: false,
            conversation_awareness: false,
            ear_detection_status: Vec::new(),
            connected_devices: Vec::new(),
        };
        assert(state@.control_status =~= Seq::<ControlCommandStatusView>::empty());
        state
    }

    /// The latest battery readings.
    pub fn battery_info(&self) -> (readings: Vec<BatteryInfo>)
        ensures
            readings@ == self@.battery,
            distinct_components(readings@),
    {
        proof {
            use_type_invariant(self);
        }
        copy_list(&self.battery_info)
    }

    /// Whether this host owns the audio route.
    pub fn ownership(&self) -> (owned: bool)
        ensures
            owned == self@.ownership,
    {
        self.ownership
    }

    /// Whether the wearer was speaking when the accessory last said so.
    pub fn conversation_awareness(&self) -> (speaking: bool)
        ensures
            speaking == self@.conversation_awareness,
    {
        self.conversation_awareness
    }

    /// Where the buds were when the accessory last said so.
    pub fn ear_detection_status(&self) -> (places: Vec<EarDetectionStatus>)
        ensures
            places@ == self@.ear_detection,
    {
        copy_list(&self.ear_detection_status)
    }

    /// The hosts that the accessory last listed.
    pub fn connected_devices(&self) -> (devices: Vec<ConnectedDeviceInfo>)
        ensures
            devices@ == self@.connected_devices,
    {
        copy_list(&self.connected_devices)
    }

    /// How many settings have been reported.
    pub fn status_count(&self) -> (count: usize)
        ensures
            count == self@.control_status.len(),
    {
        self.control_command_status_list.len()
    }

    /// The latest value of a setting, if the accessory has reported one.
    pub fn status_value(&self, identifier: ControlCommandIdentifiers) -> (value: Option<Vec<u8>>)
        ensures
            match value {
                Some(bytes) => {
                    let position = position_of(self@.control_status, identifier);
                    position < self@.control_status.len() && bytes@
                        == self@.control_status[position].value
                },
                None => position_of(self@.control_status, identifier)
                    == self@.control_status.len(),
            },
    {
        let ghost list = self@.control_status;
        let mut i: usize = 0;
        while i < self.control_command_status_list.len()
            invariant
                i <= self.control_command_status_list@.len(),
                list == commands_view(self.control_command_status_list@),
                forall|j: int| 0 <= j < i ==> (#[trigger] list[j]).identifier != identifier,
            decreases self.control_command_status_list@.len() - i,
        {
            if self.control_command_status_list[i].identifier == identifier {
                proof {
                    lemma_position_found(list, identifier, i as int);
                }
                return Some(copy_bytes(&self.control_command_status_list[i].value));
            }
            i += 1;
        }
        proof {
            lemma_position_found(list, identifier, i as int);
        }
        None
    }

    /// Brings the value of one setting up to date.
    fn upsert(&mut self, identifier: ControlCommandIdentifiers, value: Vec<u8>)
        ensures
            final(self)@.control_status == upsert_status(
                old(self)@.control_status,
                ControlCommandStatusView { identifier, value: value@ },
            ),
            final(self)@.battery == old(self)@.battery,
            final(self)@.ownership == old(self)@.ownership,
            final(self)@.conversation_awareness == old(self)@.conversation_awareness,
            final(self)@.ear_detection == old(self)@.ear_detection,
            final(self)@.connected_devices == old(self)@.connected_devices,
    {
        proof {
            use_type_invariant(&*self);
        }
        let ghost list = self@.control_status;
        let ghost status = ControlCommandStatusView { identifier, value: value@ };
        let mut entries: Vec<ControlCommandStatus> = Vec::new();
        std::mem::swap(&mut entries, &mut self.control_command_status_list);
        assert(commands_view(self.control_command_status_list@) =~= Seq::<
            ControlCommandStatusView,
        >::empty());
        let mut i: usize = 0;
        while i < entries.len() && entries[i].identifier != identifier
            invariant
                i <= entries@.len(),
                list == commands_view(entries@),
                forall|j: int| 0 <= j < i ==> (#[trigger] list[j]).identifier != identifier,
            decreases entries@.len() - i,
        {
            assert(list[i as int].identifier == entries@[i as int].identifier);
            i += 1;
        }
        proof {
            if i < entries@.len() {
                assert(list[i as int].identifier == entries@[i as int].identifier);
            }
            lemma_position_found(list, identifier, i as int);
        }
        let entry = ControlCommandStatus { identifier, value };
        if i < entries.len() {
            entries.set(i, entry);
            assert(commands_view(entries@) =~= list.update(i as int, status));
        } else {
            entries.push(entry);
            assert(commands_view(entries@) =~= list.push(status));
        }
        assert(distinct_identifiers(commands_view(entries@))) by {
            let after = commands_view(entries@);
            assert forall|a: int, b: int| 0 <= a < b < after.len() implies (
            #[trigger] after[a]).identifier != (#[trigger] after[b]).identifier by {
                if b < list.len() {
                    assert(list[a].identifier != list[b].identifier);
                    assert(after[a].identifier == list[a].identifier);
                    assert(after[b].identifier == list[b].identifier);
                } else {
                    assert(list[a].identifier != identifier);
                }
            }
        }
        self.control_command_status_list = entries;
    }

    /// Takes in what an event says.
    pub(crate) fn apply(&mut self, event: &AACPEvent)
        requires
            event_wf(event@),
        ensures
            final(self)@ == state_after_event(old(self)@, event@),
    {
        proof {
            use_type_invariant(&*self);
        }
        match event {
            AACPEvent::EarDetection(_, places) => {
                self.ear_detection_status = copy_list(places);
            },
            AACPEvent::BatteryInfo(readings) => {
                self.battery_info = copy_list(readings);
            },
            AACPEvent::ControlCommand(status) => {
                if status.identifier == ControlCommandIdentifiers::OwnsConnection {
                    self.ownership = owns(&status.value);
                }
                self.upsert(status.identifier, copy_bytes(&status.value));
            },
            AACPEvent::ConversationalAwareness(speaking) => {
                self.conversation_awareness = *speaking;
            },
            AACPEvent::ConnectedDevices(_, devices) => {
                self.connected_devices = copy_list(devices);
            },
            AACPEvent::OwnershipToFalseRequest => {
                self.ownership = false;
            },
            AACPEvent::ProximityKeys(_) => {},
        }
    }
}

/// Reads a packet as an event, given what the session knew before.
pub fn decode_event(state: &AACPManagerState, packet: &AacpPacket) -> (event: Option<AACPEvent>)
    ensures
        event_option_view(event) == event_of(state@, packet@),
        event matches Some(e) ==> event_wf(e@),
{
    let payload = packet.payload.as_slice();
    match packet.identifier {
        Opcode::BatteryInfo => match decode_battery(payload) {
            Ok(readings) => Some(AACPEvent::BatteryInfo(readings)),
            Err(_) => None,
        },
        Opcode::EarDetection => match decode_ear_detection(payload) {
            Ok(places) => Some(AACPEvent::EarDetection(state.ear_detection_status(), places)),
            Err(_) => None,
        },
        Opcode::ControlCommand => match decode_control_command(payload) {
            Ok(status) => Some(AACPEvent::ControlCommand(status)),
            Err(_) => None,
        },
        Opcode::ConversationalAwareness => match decode_single_byte(payload) {
            Ok(byte) => Some(AACPEvent::ConversationalAwareness(is_speaking(byte))),
            Err(_) => None,
        },
        Opcode::ConnectedDevices => match decode_connected_devices(payload) {
            Ok(devices) => Some(AACPEvent::ConnectedDevices(state.connected_devices(), devices)),
            Err(_) => None,
        },
        Opcode::OwnershipRequest => match decode_single_byte(payload) {
            Ok(byte) => if byte == 0 {
                Some(AACPEvent::OwnershipToFalseRequest)
            } else {
                None
            },
            Err(_) => None,
        },
        Opcode::ProximityKeysResponse => match decode_proximity_keys(payload) {
            Ok(keys) => Some(AACPEvent::ProximityKeys(keys)),
            Err(_) => None,
        },
        _ => None,
    }
}

/// The value of a setting on its way to one listener.
#[derive(Debug)]
pub struct Delivery {
    pub subscriber: u64,
    pub value: Vec<u8>,
}

/// A delivery over plain values.
pub struct DeliveryView {
    pub subscriber: u64,
    pub value: Seq<u8>,
}

impl View for Delivery {
    type V = DeliveryView;

    open spec fn view(&self) -> DeliveryView {
        DeliveryView { subscriber: self.subscriber, value: self.value@ }
    }
}

/// The deliveries of a list over plain values.
pub open spec fn deliveries_view(list: Seq<Delivery>) -> Seq<DeliveryView> {
    list.map_values(|d: Delivery| d@)
}

/// Who gets what for an event: the value of a reported setting goes to each
/// subscriber of that setting, in the order of registration; no other event
/// goes to any subscriber.
pub open spec fn deliveries_spec(subscriptions: Seq<Subscription>, event: EventView) -> Seq<
    DeliveryView,
> {
    match event {
        EventView::ControlCommand(status) => subscribers_spec(
            subscriptions,
            status.identifier,
        ).map_values(|s: u64| DeliveryView { subscriber: s, value: status.value }),
        _ => Seq::empty(),
    }
}

/// Lists the deliveries that an event calls for.
pub fn deliveries_for(registry: &SubscriptionRegistry, event: &AACPEvent) -> (deliveries: Vec<
    Delivery,
>)
    ensures
        deliveries_view(deliveries@) == deliveries_spec(registry@, event@),
{
    let mut out: Vec<Delivery> = Vec::new();
    match event {
        AACPEvent::ControlCommand(status) => {
            let listeners = registry.subscribers(status.identifier);
            let ghost wanted = deliveries_spec(registry@, event@);
            let mut i: usize = 0;
            assert(deliveries_view(out@) =~= wanted.take(0));
            while i < listeners.len()
                invariant
                    i <= listeners@.len(),
                    wanted.len() == listeners@.len(),
                    forall|j: int|
                        0 <= j < wanted.len() ==> #[trigger] wanted[j] == (DeliveryView {
                            subscriber: listeners@[j],
                            value: status.value@,
                        }),
                    out@.len() == i,
                    deliveries_view(out@) == wanted.take(i as int),
                decreases listeners@.len() - i,
            {
                let delivery = Delivery {
                    subscriber: listeners[i],
                    value: copy_bytes(&status.value),
                };
                let ghost before = out@;
                let ghost added = delivery@;
                out.push(delivery);
                assert forall|j: int| 0 <= j < i + 1 implies deliveries_view(out@)[j]
                    == wanted.take(i + 1)[j] by {
                    if j < i {
                        assert(out@[j] == before[j]);
                        assert(deliveries_view(before)[j] == wanted.take(i as int)[j]);
                    } else {
                        assert(out@[j]@ == added);
                        assert(wanted[j] == added);
                    }
                }
                assert(deliveries_view(out@) =~= wanted.take(i + 1));
                i += 1;
            }
            assert(wanted.take(i as int) =~= wanted);
        },
        _ => {
            assert(deliveries_view(out@) =~= Seq::<DeliveryView>::empty());
        },
    }
    out
}

/// What a session asks of its collaborators.
#[derive(Debug)]
pub enum SessionAction {
    /// Tell the media controller where the buds were and are.
    HandleEarDetection(Vec<EarDetectionStatus>, Vec<EarDetectionStatus>),
    /// Tell the media controller whether the wearer is speaking.
    HandleConversationalAwareness(bool),
    PauseAllMedia,
    DeactivateAudioProfile,
    /// Announce this host to the peer with the given address, off the path
    /// that handles events.
    HandOff([u8; 6]),
}

/// An action over plain values.
pub enum ActionView {
    HandleEarDetection(Seq<EarDetectionStatus>, Seq<EarDetectionStatus>),
    HandleConversationalAwareness(bool),
    PauseAllMedia,
    DeactivateAudioProfile,
    HandOff([u8; 6]),
}

impl View for SessionAction {
    type V = ActionView;

    open spec fn view(&self) -> ActionView {
        match self {
            SessionAction::HandleEarDetection(old_places, new_places) => {
                ActionView::HandleEarDetection(old_places@, new_places@)
            },
            SessionAction::HandleConversationalAwareness(speaking) => {
                ActionView::HandleConversationalAwareness(*speaking)
            },
            SessionAction::PauseAllMedia => ActionView::PauseAllMedia,
            SessionAction::DeactivateAudioProfile => ActionView::DeactivateAudioProfile,
            SessionAction::HandOff(peer) => ActionView::HandOff(*peer),
        }
    }
}

/// The actions of a list over plain values.
pub open spec fn actions_view(list: Seq<SessionAction>) -> Seq<ActionView> {
    list.map_values(|a: SessionAction| a@)
}

/// Whether a list of hosts holds one with the address.
pub open spec fn knows_mac(devices: Seq<ConnectedDeviceInfo>, mac: [u8; 6]) -> bool {
    exists|i: int| 0 <= i < devices.len() && (#[trigger] devices[i]).mac == mac
}

/// Whether a host has newly joined: the old list does not hold its address,
/// and it is not this host.
pub open spec fn is_new_peer(
    old_devices: Seq<ConnectedDeviceInfo>,
    local_mac: [u8; 6],
    device: ConnectedDeviceInfo,
) -> bool {
    !knows_mac(old_devices, device.mac) && device.mac != local_mac
}

/// The hosts of the new list that have newly joined, in the order of the
/// list.
pub open spec fn new_peers(
    old_devices: Seq<ConnectedDeviceInfo>,
    new_devices: Seq<ConnectedDeviceInfo>,
    local_mac: [u8; 6],
) -> Seq<ConnectedDeviceInfo> {
    new_devices.filter(|d: ConnectedDeviceInfo| is_new_peer(old_devices, local_mac, d))
}

/// What an event asks of the collaborators of the session.
pub open spec fn actions_spec(event: EventView, local_mac: [u8; 6]) -> Seq<ActionView> {
    match event {
        EventView::EarDetection(old_places, new_places) => seq![
            ActionView::HandleEarDetection(old_places, new_places),
        ],
        EventView::ConversationalAwareness(speaking) => seq![
            ActionView::HandleConversationalAwareness(speaking),
        ],
        EventView::ConnectedDevices(old_devices, new_devices) => new_peers(
            old_devices,
            new_devices,
            local_mac,
        ).map_values(|d: ConnectedDeviceInfo| ActionView::HandOff(d.mac)),
        EventView::OwnershipToFalseRequest => seq![
            ActionView::PauseAllMedia,
            ActionView::DeactivateAudioProfile,
        ],
        EventView::ControlCommand(status) => if reports_lost_ownership(event) {
            seq![ActionView::PauseAllMedia, ActionView::DeactivateAudioProfile]
        } else {
            Seq::empty()
        },
        _ => Seq::empty(),
    }
}

/// Tells whether two addresses are the same.
pub fn same_mac(a: &[u8; 6], b: &[u8; 6]) -> (same: bool)
    ensures
        same == (*a == *b),
{
    let same = a[0] == b[0] && a[1] == b[1] && a[2] == b[2] && a[3] == b[3] && a[4] == b[4] && a[5]
        == b[5];
    proof {
        if same {
            assert(a@ =~= b@);
            assert(*a == *b);
        } else {
            assert(a@ != b@);
            assert(*a != *b);
        }
    }
    same
}

/// Tells whether a list of hosts holds one with the address.
pub fn contains_mac(devices: &Vec<ConnectedDeviceInfo>, mac: &[u8; 6]) -> (found: bool)
    ensures
        found == knows_mac(devices@, *mac),
{
    let mut i: usize = 0;
    while i < devices.len()
        invariant
            i <= devices@.len(),
            forall|j: int| 0 <= j < i ==> (#[trigger] devices@[j]).mac != *mac,
        decreases devices@.len() - i,
    {
        if same_mac(&devices[i].mac, mac) {
            return true;
        }
        i += 1;
    }
    false
}

/// Finds the hosts that have newly joined the accessory.
pub fn find_new_peers(
    old_devices: &Vec<ConnectedDeviceInfo>,
    new_devices: &Vec<ConnectedDeviceInfo>,
    local_mac: &[u8; 6],
) -> (peers: Vec<ConnectedDeviceInfo>)
    ensures
        peers@ == new_peers(old_devices@, new_devices@, *local_mac),
{
    let ghost fresh = |d: ConnectedDeviceInfo| is_new_peer(old_devices@, *local_mac, d);
    let mut out: Vec<ConnectedDeviceInfo> = Vec::new();
    let mut i: usize = 0;
    proof {
        reveal(Seq::filter);
    }
    assert(new_devices@.take(0) =~= Seq::<ConnectedDeviceInfo>::empty());
    while i < new_devices.len()
        invariant
            i <= new_devices@.len(),
            fresh == |d: ConnectedDeviceInfo| is_new_peer(old_devices@, *local_mac, d),
            out@ == new_devices@.take(i as int).filter(fresh),
        decreases new_devices@.len() - i,
    {
        let device = new_devices[i];
        proof {
            reveal(Seq::filter);
            assert(new_devices@.take(i + 1).drop_last() =~= new_devices@.take(i as int));
            assert(new_devices@.take(i + 1).last() == device);
        }
        if !contains_mac(old_devices, &device.mac) && !same_mac(&device.mac, local_mac) {
            out.push(device);
        }
        i += 1;
    }
    assert(new_devices@.take(i as int) =~= new_devices@);
    out
}

/// Lists the actions that an event calls for.
pub fn actions_for(event: &AACPEvent, local_mac: &[u8; 6]) -> (actions: Vec<SessionAction>)
    ensures
        actions_view(actions@) == actions_spec(event@, *local_mac),
{
    let mut out: Vec<SessionAction> = Vec::new();
    match event {
        AACPEvent::EarDetection(old_places, new_places) => {
            out.push(SessionAction::HandleEarDetection(copy_list(old_places), copy_list(new_places)));
            assert(actions_view(out@) =~= actions_spec(event@, *local_mac));
        },
        AACPEvent::ConversationalAwareness(speaking) => {
            out.push(SessionAction::HandleConversationalAwareness(*speaking));
            assert(actions_view(out@) =~= actions_spec(event@, *local_mac));
        },
        AACPEvent::ConnectedDevices(old_devices, new_devices) => {
            let peers = find_new_peers(old_devices, new_devices, local_mac);
            let ghost wanted = actions_spec(event@, *local_mac);
            let mut i: usize = 0;
            assert(actions_view(out@) =~= wanted.take(0));
            while i < peers.len()
                invariant
                    i <= peers@.len(),
                    wanted.len() == peers@.len(),
                    forall|j: int|
                        0 <= j < wanted.len() ==> #[trigger] wanted[j] == ActionView::HandOff(
                            peers@[j].mac,
                        ),
                    out@.len() == i,
                    actions_view(out@) == wanted.take(i as int),
                decreases peers@.len() - i,
            {
                let ghost before = out@;
                out.push(SessionAction::HandOff(peers[i].mac));
                assert forall|j: int| 0 <= j < i + 1 implies actions_view(out@)[j] == wanted.take(
                    i + 1,
                )[j] by {
                    if j < i {
                        assert(out@[j] == before[j]);
                        assert(actions_view(before)[j] == wanted.take(i as int)[j]);
                    } else {
                        assert(out@[j]@ == ActionView::HandOff(peers@[j].mac));
                        assert(wanted[j] == ActionView::HandOff(peers@[j].mac));
                    }
                }
                assert(actions_view(out@) =~= wanted.take(i + 1));
                i += 1;
            }
            assert(wanted.take(i as int) =~= wanted);
        },
        AACPEvent::OwnershipToFalseRequest => {
            out.push(SessionAction::PauseAllMedia);
            out.push(SessionAction::DeactivateAudioProfile);
            assert(actions_view(out@) =~= actions_spec(event@, *local_mac));
        },
        AACPEvent::ControlCommand(status) => {
            if status.identifier == ControlCommandIdentifiers::OwnsConnection && !owns(
                &status.value,
            ) {
                out.push(SessionAction::PauseAllMedia);
                out.push(SessionAction::DeactivateAudioProfile);
            }
            assert(actions_view(out@) =~= actions_spec(event@, *local_mac));
        },
        _ => {
            assert(actions_view(out@) =~= actions_spec(event@, *local_mac));
        },
    }
    out
}

/// The packets of a hand-off in the order in which they are sent: what this
/// host plays first, then the announcement of the peer.
pub fn hand_off_packets(local_mac: &[u8; 6], peer_mac: &[u8; 6]) -> (packets: Vec<Vec<u8>>)
    ensures
        packets@.len() == 2,
        packets@[0]@ == frame_spec(Opcode::MediaInformation, peer_payload(local_mac@, peer_mac@)),
        packets@[1]@ == frame_spec(Opcode::AddPeerDevice, peer_payload(local_mac@, peer_mac@)),
{
    let mut out: Vec<Vec<u8>> = Vec::new();
    out.push(media_information_packet(local_mac, peer_mac));
    out.push(add_peer_device_packet(local_mac, peer_mac));
    out
}

/// A hand-off goes to exactly the hosts that have newly joined: to each host
/// of the new list whose address the old list does not hold and which is not
/// this host, and to no other address.
pub proof fn lemma_hand_off_goes_to_new_peers(
    old_devices: Seq<ConnectedDeviceInfo>,
    new_devices: Seq<ConnectedDeviceInfo>,
    local_mac: [u8; 6],
    mac: [u8; 6],
)
    ensures
        actions_spec(EventView::ConnectedDevices(old_devices, new_devices), local_mac).contains(
            ActionView::HandOff(mac),
        ) <==> (knows_mac(new_devices, mac) && !knows_mac(old_devices, mac) && mac != local_mac),
        !actions_spec(EventView::ConnectedDevices(old_devices, new_devices), local_mac).contains(
            ActionView::HandOff(local_mac),
        ),
{
    lemma_hand_off_goes_there(old_devices, new_devices, local_mac, mac);
    lemma_hand_off_goes_there(old_devices, new_devices, local_mac, local_mac);
}

proof fn lemma_hand_off_goes_there(
    old_devices: Seq<ConnectedDeviceInfo>,
    new_devices: Seq<ConnectedDeviceInfo>,
    local_mac: [u8; 6],
    mac: [u8; 6],
)
    ensures
        actions_spec(EventView::ConnectedDevices(old_devices, new_devices), local_mac).contains(
            ActionView::HandOff(mac),
        ) <==> (knows_mac(new_devices, mac) && !knows_mac(old_devices, mac) && mac != local_mac),
{
    let fresh = |d: ConnectedDeviceInfo| is_new_peer(old_devices, local_mac, d);
    let peers = new_peers(old_devices, new_devices, local_mac);
    let actions = actions_spec(EventView::ConnectedDevices(old_devices, new_devices), local_mac);
    if actions.contains(ActionView::HandOff(mac)) {
        let i = choose|i: int| 0 <= i < actions.len() && actions[i] == ActionView::HandOff(mac);
        assert(peers[i].mac == mac);
        new_devices.lemma_filter_pred(fresh, i);
        assert(peers.contains(peers[i]));
        new_devices.lemma_filter_contains_rev(fresh, peers[i]);
        let k = choose|k: int| 0 <= k < new_devices.len() && new_devices[k] == peers[i];
        assert(new_devices[k].mac == mac);
    }
    if knows_mac(new_devices, mac) && !knows_mac(old_devices, mac) && mac != local_mac {
        let k = choose|k: int| 0 <= k < new_devices.len() && (#[trigger] new_devices[k]).mac == mac;
        new_devices.lemma_filter_contains(fresh, k);
        let i = choose|i: int| 0 <= i < peers.len() && peers[i] == new_devices[k];
        assert(actions[i] == ActionView::HandOff(mac));
    }
}

/// A list that names no host beyond those of the old list and this host
/// calls for no hand-off at all.
pub proof fn lemma_no_growth_no_hand_off(
    old_devices: Seq<ConnectedDeviceInfo>,
    new_devices: Seq<ConnectedDeviceInfo>,
    local_mac: [u8; 6],
)
    requires
        forall|i: int|
            0 <= i < new_devices.len() ==> knows_mac(old_devices, (#[trigger] new_devices[i]).mac)
                || new_devices[i].mac == local_mac,
    ensures
        actions_spec(EventView::ConnectedDevices(old_devices, new_devices), local_mac).len() == 0,
        actions_spec(EventView::ConnectedDevices(old_devices, old_devices), local_mac).len() == 0,
{
    lemma_nobody_new(old_devices, new_devices, local_mac);
    assert forall|i: int| 0 <= i < old_devices.len() implies knows_mac(
        old_devices,
        (#[trigger] old_devices[i]).mac,
    ) by {}
    lemma_nobody_new(old_devices, old_devices, local_mac);
}

proof fn lemma_nobody_new(
    old_devices: Seq<ConnectedDeviceInfo>,
    new_devices: Seq<ConnectedDeviceInfo>,
    local_mac: [u8; 6],
)
    requires
        forall|i: int|
            0 <= i < new_devices.len() ==> knows_mac(old_devices, (#[trigger] new_devices[i]).mac)
                || new_devices[i].mac == local_mac,
    ensures
        new_peers(old_devices, new_devices, local_mac).len() == 0,
{
    let fresh = |d: ConnectedDeviceInfo| is_new_peer(old_devices, local_mac, d);
    let peers = new_peers(old_devices, new_devices, local_mac);
    if peers.len() > 0 {
        new_devices.lemma_filter_pred(fresh, 0);
        assert(peers.contains(peers[0]));
        new_devices.lemma_filter_contains_rev(fresh, peers[0]);
        let k = choose|k: int| 0 <= k < new_devices.len() && new_devices[k] == peers[0];
        assert(knows_mac(old_devices, new_devices[k].mac) || new_devices[k].mac == local_mac);
    }
}

} // verus!
