//! The network service's state: the table of discovered devices, the
//! sessions waiting for the user's confirmation, and the events shown to the
//! user interface. The application runs listeners, discovery and sessions
//! and feeds their outcomes through these tables.

use vstd::prelude::*;
use vstd::string::*;

use crate::discovery::{
    addrs_view, is_loopback_view, DiscoveredDevice, DiscoveredView, DiscoveryEvent, NetAddr,
    NetAddrView,
};
use crate::error::NetworkError;
use crate::json::str_eq;
use crate::message::Conversation;
use std::collections::HashMap;

verus! {

broadcast use {vstd::string::group_string_axioms, vstd::std_specs::hash::group_hash_axioms};

/// A device as the user interface lists it.
#[derive(Debug, Clone, PartialEq, Eq)]
pub struct Device {
    /// Device UUID.
    pub id: String,
    /// Display name.
    pub name: String,
    /// Whether it is online (announced over mDNS).
    pub online: bool,
    /// The peer's operating system.
    pub os: String,
    /// The preferred IP address to show (empty when there is none).
    pub ip: String,
}

/// Abstract listed device.
pub struct DeviceView {
    pub id: Seq<char>,
    pub name: Seq<char>,
    pub online: bool,
    pub os: Seq<char>,
    pub ip: Seq<char>,
}

impl View for Device {
    type V = DeviceView;

    open spec fn view(&self) -> DeviceView {
        DeviceView { id: self.id@, name: self.name@, online: self.online, os: self.os@, ip: self.ip@ }
    }
}

/// What the service reports to the user interface.
#[derive(Debug, Clone)]
pub enum NetEvent {
    /// A device was found (or updated).
    DeviceFound(Device),
    /// A device went away.
    DeviceLost { uuid: String },
    /// An incoming pairing waits for the user to compare its code.
    IncomingPairing { pairing_id: u64, peer_uuid: String, peer_name: String, pin: String },
    /// A conversation arrived.
    ConversationReceived { from_uuid: String, from_name: String, conversation: Conversation },
    /// A pairing or transfer failed.
    Failed { pairing_id: u64, reason: String },
}

// ---------------------------------------------------------------------------
// Preferred address
// ---------------------------------------------------------------------------

/// Index of the first non-loopback IPv4 address.
pub open spec fn first_v4_public(a: Seq<NetAddrView>) -> Option<int>
    decreases a.len(),
{
    if a.len() == 0 {
        None
    } else if a[0].ip is V4 && !is_loopback_view(a[0].ip) {
        Some(0)
    } else {
        match first_v4_public(a.drop_first()) {
            Some(i) => Some(i + 1),
            None => None,
        }
    }
}

/// Index of the first non-loopback address.
pub open spec fn first_public(a: Seq<NetAddrView>) -> Option<int>
    decreases a.len(),
{
    if a.len() == 0 {
        None
    } else if !is_loopback_view(a[0].ip) {
        Some(0)
    } else {
        match first_public(a.drop_first()) {
            Some(i) => Some(i + 1),
            None => None,
        }
    }
}

/// The address to show: the first non-loopback IPv4 one, else the first
/// non-loopback one, else the first one.
pub open spec fn primary_index_view(a: Seq<NetAddrView>) -> Option<int> {
    match first_v4_public(a) {
        Some(i) => Some(i),
        None => match first_public(a) {
            Some(i) => Some(i),
            None => if a.len() > 0 {
                Some(0)
            } else {
                None
            },
        },
    }
}

/// The text of the preferred address, empty when there is none.
pub open spec fn primary_ip_view(a: Seq<NetAddrView>) -> Seq<char> {
    match primary_index_view(a) {
        Some(i) => a[i].ip_text,
        None => Seq::empty(),
    }
}

/// Whether an address is an IPv4 address other than loopback.
pub open spec fn is_public_v4(x: NetAddrView) -> bool {
    x.ip is V4 && !is_loopback_view(x.ip)
}

/// The first public IPv4 address is found at its index; with none, none is.
proof fn lemma_first_v4_public_at(a: Seq<NetAddrView>, k: int)
    requires
        0 <= k <= a.len(),
        k < a.len() ==> is_public_v4(a[k]),
        forall|q: int| 0 <= q < k ==> !is_public_v4(#[trigger] a[q]),
    ensures
        first_v4_public(a) == (if k < a.len() {
            Some(k)
        } else {
            None::<int>
        }),
    decreases k,
{
    if k > 0 {
        assert(!is_public_v4(a[0]));
        let rest = a.drop_first();
        assert forall|q: int| 0 <= q < k - 1 implies !is_public_v4(#[trigger] rest[q]) by {
            assert(rest[q] == a[q + 1]);
            assert(!is_public_v4(a[q + 1]));
        }
        if k < a.len() {
            assert(rest[k - 1] == a[k]);
        }
        lemma_first_v4_public_at(rest, k - 1);
    }
}

/// The first non-loopback address is found at its index; with none, none is.
proof fn lemma_first_public_at(a: Seq<NetAddrView>, k: int)
    requires
        0 <= k <= a.len(),
        k < a.len() ==> !is_loopback_view(a[k].ip),
        forall|q: int| 0 <= q < k ==> is_loopback_view(#[trigger] a[q].ip),
    ensures
        first_public(a) == (if k < a.len() {
            Some(k)
        } else {
            None::<int>
        }),
    decreases k,
{
    if k > 0 {
        assert(is_loopback_view(a[0].ip));
        let rest = a.drop_first();
        assert forall|q: int| 0 <= q < k - 1 implies is_loopback_view(#[trigger] rest[q].ip) by {
            assert(rest[q] == a[q + 1]);
            assert(is_loopback_view(a[q + 1].ip));
        }
        if k < a.len() {
            assert(rest[k - 1] == a[k]);
        }
        lemma_first_public_at(rest, k - 1);
    }
}

/// If the list holds a non-loopback IPv4 address, the shown IP is the text
/// of the first such address, whatever comes before it.
pub proof fn lemma_primary_ip_prefers_public_v4(a: Seq<NetAddrView>, k: int)
    requires
        0 <= k < a.len(),
        is_public_v4(a[k]),
        forall|q: int| 0 <= q < k ==> !is_public_v4(#[trigger] a[q]),
    ensures
        primary_ip_view(a) == a[k].ip_text,
{
    lemma_first_v4_public_at(a, k);
}

/// Without a non-loopback IPv4 address, the shown IP is the text of the first
/// non-loopback address (an IPv6 one).
pub proof fn lemma_primary_ip_then_public(a: Seq<NetAddrView>, k: int)
    requires
        0 <= k < a.len(),
        forall|q: int| 0 <= q < a.len() ==> !is_public_v4(#[trigger] a[q]),
        !is_loopback_view(a[k].ip),
        forall|q: int| 0 <= q < k ==> is_loopback_view(#[trigger] a[q].ip),
    ensures
        primary_ip_view(a) == a[k].ip_text,
{
    lemma_first_v4_public_at(a, a.len() as int);
    lemma_first_public_at(a, k);
}

/// With only loopback addresses, the shown IP is the first address's text;
/// with no address at all it is empty.
pub proof fn lemma_primary_ip_all_loopback(a: Seq<NetAddrView>)
    requires
        forall|q: int| 0 <= q < a.len() ==> is_loopback_view(#[trigger] a[q].ip),
    ensures
        primary_ip_view(a) == (if a.len() > 0 {
            a[0].ip_text
        } else {
            Seq::<char>::empty()
        }),
{
    assert forall|q: int| 0 <= q < a.len() implies !is_public_v4(#[trigger] a[q]) by {
        assert(is_loopback_view(a[q].ip));
    }
    lemma_first_v4_public_at(a, a.len() as int);
    lemma_first_public_at(a, a.len() as int);
}

fn find_v4_public(addrs: &Vec<NetAddr>) -> (r: Option<usize>)
    ensures
        match r {
            Some(i) => first_v4_public(addrs_view(addrs@)) == Some(i as int) && i < addrs@.len(),
            None => first_v4_public(addrs_view(addrs@)) is None,
        },
{
    let ghost a = addrs_view(addrs@);
    let mut i: usize = 0;
    assert(a.skip(0) =~= a);
    while i < addrs.len()
        invariant
            i <= addrs@.len(),
            a == addrs_view(addrs@),
            first_v4_public(a) == (match first_v4_public(a.skip(i as int)) {
                Some(j) => Some(j + i),
                None => None::<int>,
            }),
        decreases addrs@.len() - i,
    {
        assert(a.skip(i as int)[0] == addrs@[i as int]@);
        if addrs[i].ip.is_ipv4() && !addrs[i].ip.is_loopback() {
            return Some(i);
        }
        assert(a.skip(i as int).drop_first() =~= a.skip(i + 1));
        i = i + 1;
    }
    None
}

fn find_public(addrs: &Vec<NetAddr>) -> (r: Option<usize>)
    ensures
        match r {
            Some(i) => first_public(addrs_view(addrs@)) == Some(i as int) && i < addrs@.len(),
            None => first_public(addrs_view(addrs@)) is None,
        },
{
    let ghost a = addrs_view(addrs@);
    let mut i: usize = 0;
    assert(a.skip(0) =~= a);
    while i < addrs.len()
        invariant
            i <= addrs@.len(),
            a == addrs_view(addrs@),
            first_public(a) == (match first_public(a.skip(i as int)) {
                Some(j) => Some(j + i),
                None => None::<int>,
            }),
        decreases addrs@.len() - i,
    {
        assert(a.skip(i as int)[0] == addrs@[i as int]@);
        if !addrs[i].ip.is_loopback() {
            return Some(i);
        }
        assert(a.skip(i as int).drop_first() =~= a.skip(i + 1));
        i = i + 1;
    }
    None
}

/// Picks the IP address to show for a peer: prefers a non-loopback IPv4
/// address, then any non-loopback one, then the first; empty when none.
pub fn primary_ip(addrs: &Vec<NetAddr>) -> (r: String)
    ensures
        r@ == primary_ip_view(addrs_view(addrs@)),
{
    let idx = match find_v4_public(addrs) {
        Some(i) => Some(i),
        None => match find_public(addrs) {
            Some(i) => Some(i),
            None => if addrs.len() > 0 {
                Some(0)
            } else {
                None
            },
        },
    };
    match idx {
        Some(i) => {
            assert(addrs_view(addrs@)[i as int] == addrs@[i as int]@);
            addrs[i].ip_text.clone()
        },
        None => String::new(),
    }
}

/// The list entry of a discovered device (always online).
pub open spec fn device_entry_view(d: DiscoveredView) -> DeviceView {
    DeviceView { id: d.uuid, name: d.name, online: true, os: d.os, ip: primary_ip_view(d.addrs) }
}

/// Builds the list entry of a discovered device.
pub fn device_entry(d: &DiscoveredDevice) -> (r: Device)
    ensures
        r@ == device_entry_view(d@),
{
    Device {
        id: d.uuid.clone(),
        name: d.name.clone(),
        online: true,
        os: d.os.clone(),
        ip: primary_ip(&d.addrs),
    }
}

fn clone_addrs(a: &Vec<NetAddr>) -> (r: Vec<NetAddr>)
    ensures
        addrs_view(r@) == addrs_view(a@),
{
    let mut r: Vec<NetAddr> = Vec::new();
    let mut i: usize = 0;
    while i < a.len()
        invariant
            i <= a@.len(),
            addrs_view(r@) =~= addrs_view(a@).take(i as int),
        decreases a@.len() - i,
    {
        let x = NetAddr { ip: a[i].ip, port: a[i].port, ip_text: a[i].ip_text.clone() };
        assert(x@ == a@[i as int]@);
        let ghost before = addrs_view(r@);
        r.push(x);
        assert(addrs_view(r@) =~= before.push(a@[i as int]@));
        i = i + 1;
        assert(addrs_view(r@) =~= addrs_view(a@).take(i as int));
    }
    assert(addrs_view(a@).take(a@.len() as int) =~= addrs_view(a@));
    r
}

// ---------------------------------------------------------------------------
// Device table
// ---------------------------------------------------------------------------

/// Whether no two devices share a UUID.
pub open spec fn unique_uuids(ds: Seq<DiscoveredView>) -> bool {
    forall|i: int, j: int| 0 <= i < j < ds.len() ==> ds[i].uuid != ds[j].uuid
}

/// The index of the device with a UUID.
pub open spec fn uuid_index(ds: Seq<DiscoveredView>, u: Seq<char>) -> Option<int>
    decreases ds.len(),
{
    if ds.len() == 0 {
        None
    } else if ds[0].uuid == u {
        Some(0)
    } else {
        match uuid_index(ds.drop_first(), u) {
            Some(i) => Some(i + 1),
            None => None,
        }
    }
}

/// The device with a UUID.
pub open spec fn lookup_view(ds: Seq<DiscoveredView>, u: Seq<char>) -> Option<DiscoveredView> {
    match uuid_index(ds, u) {
        Some(i) => Some(ds[i]),
        None => None,
    }
}

/// The table after a device is found: its entry replaced, or appended.
pub open spec fn upsert_view(ds: Seq<DiscoveredView>, d: DiscoveredView) -> Seq<DiscoveredView> {
    match uuid_index(ds, d.uuid) {
        Some(i) => ds.update(i, d),
        None => ds.push(d),
    }
}

/// The table after a device is lost: its entry removed.
pub open spec fn remove_view(ds: Seq<DiscoveredView>, u: Seq<char>) -> Seq<DiscoveredView> {
    match uuid_index(ds, u) {
        Some(i) => ds.remove(i),
        None => ds,
    }
}

/// What `uuid_index` finds.
pub proof fn lemma_uuid_index(ds: Seq<DiscoveredView>, u: Seq<char>)
    ensures
        match uuid_index(ds, u) {
            Some(i) => 0 <= i < ds.len() && ds[i].uuid == u && forall|k: int|
                0 <= k < i ==> ds[k].uuid != u,
            None => forall|k: int| 0 <= k < ds.len() ==> ds[k].uuid != u,
        },
    decreases ds.len(),
{
    if ds.len() > 0 {
        lemma_uuid_index(ds.drop_first(), u);
        if ds[0].uuid != u {
            match uuid_index(ds.drop_first(), u) {
                Some(j) => {
                    assert(ds[j + 1] == ds.drop_first()[j]);
                    assert forall|k: int| 0 <= k < j + 1 implies ds[k].uuid != u by {
                        if k > 0 {
                            assert(ds[k] == ds.drop_first()[k - 1]);
                        }
                    }
                },
                None => {
                    assert forall|k: int| 0 <= k < ds.len() implies ds[k].uuid != u by {
                        if k > 0 {
                            assert(ds[k] == ds.drop_first()[k - 1]);
                        }
                    }
                },
            }
        }
    }
}

/// In a table with unique UUIDs, the device at index `i` is found by its UUID.
pub proof fn lemma_uuid_index_unique(ds: Seq<DiscoveredView>, i: int)
    requires
        unique_uuids(ds),
        0 <= i < ds.len(),
    ensures
        uuid_index(ds, ds[i].uuid) == Some(i),
{
    lemma_uuid_index(ds, ds[i].uuid);
    match uuid_index(ds, ds[i].uuid) {
        Some(j) => {
            if j < i {
            } else if j > i {
            }
        },
        None => {},
    }
}

/// The device views of a list of devices.
pub open spec fn devices_view(ds: Seq<DiscoveredDevice>) -> Seq<DiscoveredView> {
    ds.map_values(|d: DiscoveredDevice| d@)
}

/// The devices found over mDNS, at most one per UUID, in the order first seen.
pub struct DeviceTable {
    devices: Vec<DiscoveredDevice>,
}

impl View for DeviceTable {
    type V = Seq<DiscoveredView>;

    closed spec fn view(&self) -> Seq<DiscoveredView> {
        devices_view(self.devices@)
    }
}

impl DeviceTable {
    /// No two entries share a UUID.
    #[verifier::type_invariant]
    closed spec fn wf(&self) -> bool {
        unique_uuids(devices_view(self.devices@))
    }

    /// An empty table.
    pub fn new() -> (t: Self)
        ensures
            t@ == Seq::<DiscoveredView>::empty(),
    {
        let t = DeviceTable { devices: Vec::new() };
        assert(t@ =~= Seq::<DiscoveredView>::empty());
        t
    }

    fn find(&self, uuid: &str) -> (r: Option<usize>)
        ensures
            match r {
                Some(i) => uuid_index(self@, uuid@) == Some(i as int) && i < self@.len(),
                None => uuid_index(self@, uuid@) is None,
            },
    {
        let ghost ds = self@;
        let mut i: usize = 0;
        assert(ds.skip(0) =~= ds);
        while i < self.devices.len()
            invariant
                i <= self.devices@.len(),
                ds == self@,
                ds == devices_view(self.devices@),
                uuid_index(ds, uuid@) == (match uuid_index(ds.skip(i as int), uuid@) {
                    Some(j) => Some(j + i),
                    None => None::<int>,
                }),
            decreases self.devices@.len() - i,
        {
            assert(ds.skip(i as int)[0] == self.devices@[i as int]@);
            if str_eq(self.devices[i].uuid.as_str(), uuid) {
                return Some(i);
            }
            assert(ds.skip(i as int).drop_first() =~= ds.skip(i + 1));
            i = i + 1;
        }
        None
    }

    /// Records a found device, replacing the entry with its UUID.
    pub fn found(&mut self, dev: DiscoveredDevice)
        ensures
            final(self)@ == upsert_view(old(self)@, dev@),
            unique_uuids(old(self)@),
            unique_uuids(final(self)@),
    {
        proof {
            use_type_invariant(&*self);
            lemma_uuid_index(self@, dev@.uuid);
        }
        let ghost old_v = self@;
        let ghost dv = dev@;
        match self.find(dev.uuid.as_str()) {
            Some(i) => {
                let ghost new_v = old_v.update(i as int, dv);
                assert(unique_uuids(new_v)) by {
                    assert forall|a: int, b: int| 0 <= a < b < new_v.len() implies new_v[a].uuid
                        != new_v[b].uuid by {
                        assert(old_v[i as int].uuid == dv.uuid);
                    }
                }
                let mut ds: Vec<DiscoveredDevice> = Vec::new();
                std::mem::swap(&mut ds, &mut self.devices);
                ds.set(i, dev);
                assert(devices_view(ds@) =~= new_v);
                self.devices = ds;
            },
            None => {
                let ghost new_v = old_v.push(dv);
                assert(unique_uuids(new_v)) by {
                    assert forall|a: int, b: int| 0 <= a < b < new_v.len() implies new_v[a].uuid
                        != new_v[b].uuid by {
                        if b == old_v.len() {
                            assert(old_v[a].uuid != dv.uuid);
                        }
                    }
                }
                let mut ds: Vec<DiscoveredDevice> = Vec::new();
                std::mem::swap(&mut ds, &mut self.devices);
                ds.push(dev);
                assert(devices_view(ds@) =~= new_v);
                self.devices = ds;
            },
        }
    }

    /// Drops a lost device.
    pub fn lost(&mut self, uuid: &str)
        ensures
            final(self)@ == remove_view(old(self)@, uuid@),
            unique_uuids(old(self)@),
            unique_uuids(final(self)@),
    {
        proof {
            use_type_invariant(&*self);
            lemma_uuid_index(self@, uuid@);
        }
        let ghost old_v = self@;
        match self.find(uuid) {
            Some(i) => {
                let ghost new_v = old_v.remove(i as int);
                assert(unique_uuids(new_v)) by {
                    assert forall|a: int, b: int| 0 <= a < b < new_v.len() implies new_v[a].uuid
                        != new_v[b].uuid by {
                        let a0 = if a < i {
                            a
                        } else {
                            a + 1
                        };
                        let b0 = if b < i {
                            b
                        } else {
                            b + 1
                        };
                        assert(new_v[a] == old_v[a0]);
                        assert(new_v[b] == old_v[b0]);
                    }
                }
                let mut ds: Vec<DiscoveredDevice> = Vec::new();
                std::mem::swap(&mut ds, &mut self.devices);
                ds.remove(i);
                assert(devices_view(ds@) =~= new_v);
                self.devices = ds;
            },
            None => {},
        }
    }

    /// Applies a discovery event and returns the event for the user
    /// interface: a found device's list entry, or the lost UUID.
    pub fn apply(&mut self, event: DiscoveryEvent) -> (r: NetEvent)
        ensures
            match event {
                DiscoveryEvent::Found(d) => final(self)@ == upsert_view(old(self)@, d@) && (
                r matches NetEvent::DeviceFound(dev) && dev@ == device_entry_view(d@)),
                DiscoveryEvent::Lost { uuid } => final(self)@ == remove_view(old(self)@, uuid@) && (
                r matches NetEvent::DeviceLost { uuid: u } && u@ == uuid@),
            },
    {
        match event {
            DiscoveryEvent::Found(dev) => {
                let entry = device_entry(&dev);
                self.found(dev);
                proof {
                    use_type_invariant(&*self);
                }
                NetEvent::DeviceFound(entry)
            },
            DiscoveryEvent::Lost { uuid } => {
                self.lost(uuid.as_str());
                NetEvent::DeviceLost { uuid }
            },
        }
    }

    /// The list entries of all known devices, in table order.
    pub fn list_devices(&self) -> (r: Vec<Device>)
        ensures
            r@.map_values(|d: Device| d@) == self@.map_values(
                |d: DiscoveredView| device_entry_view(d),
            ),
    {
        let ghost ds = self@;
        let mut out: Vec<Device> = Vec::new();
        let mut i: usize = 0;
        while i < self.devices.len()
            invariant
                i <= self.devices@.len(),
                ds == self@,
                ds == devices_view(self.devices@),
                out@.map_values(|d: Device| d@) =~= ds.take(i as int).map_values(
                    |d: DiscoveredView| device_entry_view(d),
                ),
            decreases self.devices@.len() - i,
        {
            let e = device_entry(&self.devices[i]);
            let ghost before = out@.map_values(|d: Device| d@);
            out.push(e);
            assert(out@.map_values(|d: Device| d@) =~= before.push(device_entry_view(ds[i as int])));
            i = i + 1;
            assert(ds.take(i as int).map_values(|d: DiscoveredView| device_entry_view(d)) =~= before.push(
                device_entry_view(ds[i - 1]),
            ));
        }
        assert(ds.take(ds.len() as int) =~= ds);
        out
    }

    /// The announced addresses of a device, to connect to in order; refused
    /// for a device not in the table.
    pub fn addrs_for(&self, uuid: &str) -> (r: Result<Vec<NetAddr>, NetworkError>)
        ensures
            match lookup_view(self@, uuid@) {
                Some(d) => r matches Ok(a) && addrs_view(a@) == d.addrs,
                None => r matches Err(e) && e is Protocol,
            },
    {
        match self.find(uuid) {
            Some(i) => {
                proof {
                    lemma_uuid_index(self@, uuid@);
                }
                assert(self@[i as int] == self.devices@[i as int]@);
                assert(lookup_view(self@, uuid@) == Some(self@[i as int]));
                Ok(clone_addrs(&self.devices[i].addrs))
            },
            None => Err(NetworkError::Protocol(String::from_str("目标设备不在设备列表中"))),
        }
    }
}

/// After a device is found, looking its UUID up gives that device, and every
/// other UUID gives what it gave before.
pub proof fn lemma_found_then_lookup(ds: Seq<DiscoveredView>, d: DiscoveredView, u: Seq<char>)
    requires
        unique_uuids(ds),
    ensures
        lookup_view(upsert_view(ds, d), d.uuid) == Some(d),
        u != d.uuid ==> lookup_view(upsert_view(ds, d), u) == lookup_view(ds, u),
        unique_uuids(upsert_view(ds, d)),
{
    lemma_uuid_index(ds, d.uuid);
    lemma_uuid_index(ds, u);
    let ns = upsert_view(ds, d);
    assert(unique_uuids(ns));
    lemma_uuid_index(ns, d.uuid);
    lemma_uuid_index(ns, u);
    match uuid_index(ds, d.uuid) {
        Some(i) => {
            lemma_uuid_index_unique(ns, i);
            match uuid_index(ds, u) {
                Some(j) => {
                    if u != d.uuid {
                        lemma_uuid_index_unique(ns, j);
                    }
                },
                None => {},
            }
        },
        None => {
            lemma_uuid_index_unique(ns, ds.len() as int);
            match uuid_index(ds, u) {
                Some(j) => {
                    lemma_uuid_index_unique(ns, j);
                },
                None => {},
            }
        },
    }
}

/// After a device is lost, looking its UUID up gives nothing, and every
/// other UUID gives what it gave before.
pub proof fn lemma_lost_then_lookup(ds: Seq<DiscoveredView>, gone: Seq<char>, u: Seq<char>)
    requires
        unique_uuids(ds),
    ensures
        lookup_view(remove_view(ds, gone), gone) is None,
        u != gone ==> lookup_view(remove_view(ds, gone), u) == lookup_view(ds, u),
{
    lemma_uuid_index(ds, gone);
    lemma_uuid_index(ds, u);
    let ns = remove_view(ds, gone);
    lemma_uuid_index(ns, gone);
    lemma_uuid_index(ns, u);
    match uuid_index(ds, gone) {
        Some(i) => {
            assert(unique_uuids(ns)) by {
                assert forall|a: int, b: int| 0 <= a < b < ns.len() implies ns[a].uuid
                    != ns[b].uuid by {
                    let a0 = if a < i {
                        a
                    } else {
                        a + 1
                    };
                    let b0 = if b < i {
                        b
                    } else {
                        b + 1
                    };
                    assert(ns[a] == ds[a0]);
                    assert(ns[b] == ds[b0]);
                }
            }
            match uuid_index(ns, gone) {
                Some(k) => {
                    let k0 = if k < i {
                        k
                    } else {
                        k + 1
                    };
                    assert(ns[k] == ds[k0]);
                },
                None => {},
            }
            match uuid_index(ds, u) {
                Some(j) => {
                    if u != gone {
                        let j1 = if j < i {
                            j
                        } else {
                            j - 1
                        };
                        assert(ns[j1] == ds[j]);
                        lemma_uuid_index_unique(ns, j1);
                    }
                },
                None => {
                    match uuid_index(ns, u) {
                        Some(k) => {
                            let k0 = if k < i {
                                k
                            } else {
                                k + 1
                            };
                            assert(ns[k] == ds[k0]);
                        },
                        None => {},
                    }
                },
            }
        },
        None => {},
    }
}


// ---------------------------------------------------------------------------
// Sessions waiting for confirmation
// ---------------------------------------------------------------------------

/// Sessions (or anything) waiting for the user, under fresh pairing ids
/// counted from 1.
pub struct PendingTable<T> {
    entries: HashMap<u64, T>,
    next_id: u64,
}

impl<T> View for PendingTable<T> {
    type V = (Map<u64, T>, u64);

    closed spec fn view(&self) -> (Map<u64, T>, u64) {
        (self.entries@, self.next_id)
    }
}

impl<T> PendingTable<T> {
    /// An empty table whose first id is 1.
    pub fn new() -> (t: Self)
        ensures
            t@.0 == Map::<u64, T>::empty(),
            t@.1 == 1,
    {
        PendingTable { entries: HashMap::new(), next_id: 1 }
    }

    /// Stores an item under the next pairing id and returns that id (an
    /// entry already under it is replaced).
    pub fn insert(&mut self, item: T) -> (id: u64)
        ensures
            id == old(self)@.1,
            final(self)@.1 == old(self)@.1.wrapping_add(1),
            final(self)@.0 == old(self)@.0.insert(id, item),
    {
        let id = self.next_id;
        self.entries.insert(id, item);
        self.next_id = id.wrapping_add(1);
        id
    }

    /// Takes the item stored under an id out of the table; refused for an
    /// unknown (or already taken) id.
    pub fn take(&mut self, id: u64) -> (r: Result<T, NetworkError>)
        ensures
            final(self)@.1 == old(self)@.1,
            final(self)@.0 == old(self)@.0.remove(id),
            old(self)@.0.contains_key(id) ==> r == Ok::<T, NetworkError>(old(self)@.0[id]),
            !old(self)@.0.contains_key(id) ==> (r matches Err(e) && e is Protocol),
    {
        match self.entries.remove(&id) {
            Some(item) => Ok(item),
            None => Err(NetworkError::Protocol(String::from_str("配对会话不存在或已过期"))),
        }
    }
}

/// An item stored under an id is what taking that id gives back, and the
/// id is gone afterwards.
pub proof fn lemma_insert_then_take<T>(m: Map<u64, T>, id: u64, item: T)
    ensures
        m.insert(id, item).contains_key(id),
        m.insert(id, item)[id] == item,
        !m.insert(id, item).remove(id).contains_key(id),
{
}

} // verus!
