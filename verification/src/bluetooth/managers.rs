use crate::bluetooth::att::ATTManager;
use crate::bluetooth::manager::{AACPManager, ManagerView};
use vstd::prelude::*;

verus! {

/// The session of one device, whichever protocol it speaks.
pub enum BluetoothManager {
    AACP(AACPManager),
    ATT(ATTManager),
}

/// The sessions of one device over plain values.
pub struct ManagersView {
    pub att: Option<ATTManager>,
    pub aacp: Option<ManagerView>,
}

/// The sessions of one device: at most one of each protocol.
pub struct DeviceManagers {
    att: Option<ATTManager>,
    aacp: Option<AACPManager>,
}

impl View for DeviceManagers {
    type V = ManagersView;

    closed spec fn view(&self) -> ManagersView {
        ManagersView {
            att: self.att,
            aacp: match self.aacp {
                Some(manager) => Some(manager@),
                None => None,
            },
        }
    }
}

impl DeviceManagers {
    /// A device without sessions.
    pub fn new() -> (managers: Self)
        ensures
            managers@ == (ManagersView { att: None, aacp: None }),
    {
        Self { att: None, aacp: None }
    }

    /// A device with an accessory-protocol session only.
    pub fn with_aacp(aacp: AACPManager) -> (managers: Self)
        ensures
            managers@ == (ManagersView { att: None, aacp: Some(aacp@) }),
    {
        Self { att: None, aacp: Some(aacp) }
    }

    /// A device with an attribute-protocol session only.
    pub fn with_att(att: ATTManager) -> (managers: Self)
        ensures
            managers@ == (ManagersView { att: Some(att), aacp: None }),
    {
        Self { att: Some(att), aacp: None }
    }

    /// Puts an accessory-protocol session in place of the one held so far.
    pub fn set_aacp(&mut self, manager: AACPManager)
        ensures
            final(self)@ == (ManagersView { aacp: Some(manager@), ..old(self)@ }),
    {
        self.aacp = Some(manager);
    }

    /// Puts an attribute-protocol session in place of the one held so far.
    pub fn set_att(&mut self, manager: ATTManager)
        ensures
            final(self)@ == (ManagersView { att: Some(manager), ..old(self)@ }),
    {
        self.att = Some(manager);
    }

    /// The accessory-protocol session, if the device has one.
    pub fn get_aacp(&self) -> (manager: Option<&AACPManager>)
        ensures
            match manager {
                Some(m) => self@.aacp == Some(m@),
                None => self@.aacp is None,
            },
    {
        self.aacp.as_ref()
    }

    /// The attribute-protocol session, if the device has one.
    pub fn get_att(&self) -> (manager: Option<ATTManager>)
        ensures
            manager == self@.att,
    {
        self.att
    }

    /// Hands the accessory-protocol session out and leaves none behind.
    pub fn take_aacp(&mut self) -> (manager: Option<AACPManager>)
        ensures
            final(self)@ == (ManagersView { aacp: None, ..old(self)@ }),
            match manager {
                Some(m) => old(self)@.aacp == Some(m@),
                None => old(self)@.aacp is None,
            },
    {
        self.aacp.take()
    }
}

/// One device of the registry: its address as text, and its sessions.
pub struct DeviceEntry {
    mac: String,
    managers: DeviceManagers,
}

/// The addresses of the entries, in their order.
pub open spec fn entry_macs(entries: Seq<DeviceEntry>) -> Seq<Seq<char>> {
    entries.map_values(|e: DeviceEntry| e.mac_spec())
}

impl DeviceEntry {
    pub closed spec fn mac_spec(self) -> Seq<char> {
        self.mac@
    }

    pub closed spec fn managers_spec(self) -> ManagersView {
        self.managers@
    }
}

/// Where an address first stands in a list, or the length of the list if it
/// does not stand there.
pub open spec fn first_index(macs: Seq<Seq<char>>, mac: Seq<char>) -> int
    decreases macs.len(),
{
    if macs.len() == 0 {
        0
    } else if macs[0] == mac {
        0
    } else {
        1 + first_index(macs.subrange(1, macs.len() as int), mac)
    }
}

/// The registry as a map from address to sessions.
pub open spec fn registry_map(entries: Seq<DeviceEntry>) -> Map<Seq<char>, ManagersView> {
    Map::new(
        |mac: Seq<char>| first_index(entry_macs(entries), mac) < entries.len(),
        |mac: Seq<char>| entries[first_index(entry_macs(entries), mac)].managers_spec(),
    )
}

proof fn lemma_first_index(macs: Seq<Seq<char>>, mac: Seq<char>, index: int)
    requires
        0 <= index <= macs.len(),
        forall|j: int| 0 <= j < index ==> #[trigger] macs[j] != mac,
        index < macs.len() ==> macs[index] == mac,
    ensures
        first_index(macs, mac) == index,
    decreases macs.len(),
{
    if macs.len() > 0 && index > 0 {
        let rest = macs.subrange(1, macs.len() as int);
        assert forall|j: int| 0 <= j < index - 1 implies #[trigger] rest[j] != mac by {
            assert(rest[j] == macs[j + 1]);
        }
        lemma_first_index(rest, mac, index - 1);
    }
}

proof fn lemma_first_index_bounds(macs: Seq<Seq<char>>, mac: Seq<char>)
    ensures
        0 <= first_index(macs, mac) <= macs.len(),
        forall|j: int| 0 <= j < first_index(macs, mac) ==> #[trigger] macs[j] != mac,
        first_index(macs, mac) < macs.len() ==> macs[first_index(macs, mac)] == mac,
    decreases macs.len(),
{
    if macs.len() > 0 && macs[0] != mac {
        let rest = macs.subrange(1, macs.len() as int);
        lemma_first_index_bounds(rest, mac);
        assert forall|j: int| 0 <= j < first_index(macs, mac) implies #[trigger] macs[j]
            != mac by {
            if j > 0 {
                assert(rest[j - 1] == macs[j]);
            }
        }
    }
}

/// The sessions of every known device, by address.
pub struct BluetoothDevices {
    devices: Vec<DeviceEntry>,
}

impl View for BluetoothDevices {
    type V = Map<Seq<char>, ManagersView>;

    closed spec fn view(&self) -> Map<Seq<char>, ManagersView> {
        registry_map(self.devices@)
    }
}

impl BluetoothDevices {
    /// A registry without devices.
    pub fn new() -> (devices: Self)
        ensures
            devices@ == Map::<Seq<char>, ManagersView>::empty(),
    {
        let devices = Self { devices: Vec::new() };
        assert(devices@ =~= Map::<Seq<char>, ManagersView>::empty());
        devices
    }

    /// Where the entry of an address stands.
    fn position(&self, mac: &String) -> (index: usize)
        ensures
            index == first_index(entry_macs(self.devices@), mac@),
            index <= self.devices@.len(),
    {
        let ghost macs = entry_macs(self.devices@);
        let mut i: usize = 0;
        while i < self.devices.len() && self.devices[i].mac != *mac
            invariant
                i <= self.devices@.len(),
                macs == entry_macs(self.devices@),
                forall|j: int| 0 <= j < i ==> #[trigger] macs[j] != mac@,
            decreases self.devices@.len() - i,
        {
            assert(macs[i as int] == self.devices@[i as int].mac@);
            i += 1;
        }
        proof {
            if i < self.devices@.len() {
                assert(macs[i as int] == self.devices@[i as int].mac@);
            }
            lemma_first_index(macs, mac@, i as int);
        }
        i
    }

    /// Tells whether the registry knows the address.
    pub fn contains(&self, mac: &String) -> (known: bool)
        ensures
            known == self@.contains_key(mac@),
    {
        self.position(mac) < self.devices.len()
    }

    /// The sessions of a device, if the registry knows its address.
    pub fn get(&self, mac: &String) -> (managers: Option<&DeviceManagers>)
        ensures
            match managers {
                Some(m) => self@.contains_key(mac@) && self@[mac@] == m@,
                None => !self@.contains_key(mac@),
            },
    {
        let index = self.position(mac);
        if index < self.devices.len() {
            Some(&self.devices[index].managers)
        } else {
            None
        }
    }

    /// Gives a device an accessory-protocol session. A device that the
    /// registry does not know yet is added; a session of the other protocol
    /// stays as it is.
    pub fn add_aacp(&mut self, mac: String, manager: AACPManager)
        ensures
            final(self)@ == old(self)@.insert(
                mac@,
                ManagersView {
                    aacp: Some(manager@),
                    att: if old(self)@.contains_key(mac@) {
                        old(self)@[mac@].att
                    } else {
                        None
                    },
                },
            ),
    {
        let index = self.position(&mac);
        let ghost before = self.devices@;
        let ghost macs = entry_macs(before);
        let ghost key = mac@;
        let mut managers = if index < self.devices.len() {
            self.devices.remove(index).managers
        } else {
            DeviceManagers::new()
        };
        managers.set_aacp(manager);
        let ghost updated = managers@;
        let entry = DeviceEntry { mac, managers };
        self.devices.insert(index, entry);
        proof {
            lemma_registry_after_put(before, self.devices@, key, updated, index as int);
        }
    }

    /// Hands the accessory-protocol session of a device out, to be put back
    /// with `add_aacp`. The device stays in the registry without it.
    pub fn take_aacp(&mut self, mac: &String) -> (manager: Option<AACPManager>)
        ensures
            match manager {
                Some(m) => {
                    &&& old(self)@.contains_key(mac@)
                    &&& old(self)@[mac@].aacp == Some(m@)
                    &&& final(self)@ == old(self)@.insert(
                        mac@,
                        ManagersView { aacp: None, ..old(self)@[mac@] },
                    )
                },
                None => {
                    &&& final(self)@ == old(self)@
                    &&& old(self)@.contains_key(mac@) ==> old(self)@[mac@].aacp is None
                },
            },
    {
        let index = self.position(mac);
        if index >= self.devices.len() {
            return None;
        }
        let ghost before = self.devices@;
        let ghost key = mac@;
        let mut entry = self.devices.remove(index);
        assert(entry == before[index as int]);
        proof {
            lemma_first_index_bounds(entry_macs(before), key);
            assert(entry_macs(before)[index as int] == before[index as int].mac_spec());
        }
        let manager = entry.managers.take_aacp();
        let ghost updated = entry.managers@;
        self.devices.insert(index, entry);
        proof {
            lemma_registry_after_put(before, self.devices@, key, updated, index as int);
            if manager is None {
                assert(final(self)@ =~= old(self)@);
            }
        }
        manager
    }

    /// Gives a device an attribute-protocol session. A device that the
    /// registry does not know yet is added; a session of the other protocol
    /// stays as it is.
    pub fn add_att(&mut self, mac: String, manager: ATTManager)
        ensures
            final(self)@ == old(self)@.insert(
                mac@,
                ManagersView {
                    att: Some(manager),
                    aacp: if old(self)@.contains_key(mac@) {
                        old(self)@[mac@].aacp
                    } else {
                        None
                    },
                },
            ),
    {
        let index = self.position(&mac);
        let ghost before = self.devices@;
        let ghost key = mac@;
        let mut managers = if index < self.devices.len() {
            self.devices.remove(index).managers
        } else {
            DeviceManagers::new()
        };
        managers.set_att(manager);
        let ghost updated = managers@;
        let entry = DeviceEntry { mac, managers };
        self.devices.insert(index, entry);
        proof {
            lemma_registry_after_put(before, self.devices@, key, updated, index as int);
        }
    }
}

/// Putting new sessions where the first entry of an address stands, or at
/// the end if it stands nowhere, is an insertion into the map.
proof fn lemma_registry_after_put(
    before: Seq<DeviceEntry>,
    after: Seq<DeviceEntry>,
    mac: Seq<char>,
    managers: ManagersView,
    index: int,
)
    requires
        index == first_index(entry_macs(before), mac),
        0 <= index <= before.len(),
        after.len() == if index < before.len() {
            before.len()
        } else {
            before.len() + 1
        },
        after[index].mac_spec() == mac,
        after[index].managers_spec() == managers,
        forall|j: int| 0 <= j < before.len() && j != index ==> #[trigger] after[j] == before[j],
    ensures
        registry_map(after) == registry_map(before).insert(mac, managers),
{
    let old_macs = entry_macs(before);
    let new_macs = entry_macs(after);
    lemma_first_index_bounds(old_macs, mac);
    assert forall|j: int| 0 <= j < new_macs.len() implies #[trigger] new_macs[j] == if j
        < old_macs.len() {
        old_macs[j]
    } else {
        mac
    } by {
        if j != index {
            assert(after[j] == before[j]);
        }
    }
    assert forall|key: Seq<char>| #[trigger]
        registry_map(after).contains_key(key) == registry_map(before).insert(
            mac,
            managers,
        ).contains_key(key) && (registry_map(after).contains_key(key) ==> registry_map(
            after,
        )[key] == registry_map(before).insert(mac, managers)[key]) by {
        lemma_first_index_bounds(old_macs, key);
        let p = first_index(old_macs, key);
        if key == mac {
            assert forall|j: int| 0 <= j < index implies #[trigger] new_macs[j] != key by {
                assert(new_macs[j] == old_macs[j]);
            }
            lemma_first_index(new_macs, key, index);
        } else if p < old_macs.len() {
            assert forall|j: int| 0 <= j < p implies #[trigger] new_macs[j] != key by {
                assert(new_macs[j] == old_macs[j] || new_macs[j] == mac);
            }
            assert(new_macs[p] == key);
            lemma_first_index(new_macs, key, p);
            assert(after[p] == before[p]);
        } else {
            assert forall|j: int| 0 <= j < new_macs.len() implies #[trigger] new_macs[j]
                != key by {
                assert(new_macs[j] == mac || new_macs[j] == old_macs[j]);
            }
            lemma_first_index(new_macs, key, new_macs.len() as int);
        }
    }
    assert(registry_map(after) =~= registry_map(before).insert(mac, managers));
}

} // verus!
