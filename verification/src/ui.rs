//! Values shown by the desktop shell: application info, this device's
//! identity, a started pairing, the tray menu texts, and the online devices
//! the tray lists.

use vstd::prelude::*;
use vstd::string::*;

use crate::adapters::builtin_adapter_names;
use crate::identity::{truncate_name, truncate_name_view, DeviceIdentity};
use crate::json::str_eq;
use crate::pairing::LocalHello;
use crate::service::NetEvent;
use crate::text::{decimal_view, u64_to_decimal};

verus! {

broadcast use vstd::string::group_string_axioms;

/// Application information for the front end.
#[derive(Debug, Clone)]
pub struct AppInfo {
    pub version: String,
    pub platform: String,
    pub adapters: Vec<String>,
}

/// This device's identity as the front end shows it.
#[derive(Debug, Clone)]
pub struct SelfIdentity {
    pub uuid: String,
    pub name: String,
}

/// A pairing this side started: its id and 6-digit code.
#[derive(Debug, Clone)]
pub struct PairingStarted {
    pub pairing_id: u64,
    pub pin: String,
}

/// The application information: version, platform and the built-in
/// adapter names (`Jan`, `ChatBox`).
pub fn app_info(version: &str, platform: &str) -> (r: AppInfo)
    ensures
        r.version@ == version@,
        r.platform@ == platform@,
        r.adapters@.len() == 2,
        r.adapters@[0]@ == "Jan"@,
        r.adapters@[1]@ == "ChatBox"@,
{
    let names = builtin_adapter_names();
    let mut adapters: Vec<String> = Vec::new();
    adapters.push(String::from_str(names[0]));
    adapters.push(String::from_str(names[1]));
    AppInfo {
        version: String::from_str(version),
        platform: String::from_str(platform),
        adapters,
    }
}

/// The identity view of this device.
pub fn self_identity(id: &DeviceIdentity) -> (r: SelfIdentity)
    ensures
        r.uuid@ == id.uuid@,
        r.name@ == id.name@,
{
    SelfIdentity { uuid: id.uuid.clone(), name: id.name.clone() }
}

/// The handshake identity of this device (read afresh each time, so a
/// rename takes effect at once).
pub fn local_hello(id: &DeviceIdentity) -> (r: LocalHello)
    ensures
        r.uuid@ == id.uuid@,
        r.name@ == id.name@,
{
    LocalHello { uuid: id.uuid.clone(), name: id.name.clone() }
}

/// The tray tooltip for a number of online devices.
pub open spec fn tray_tooltip_view(count: nat) -> Seq<char> {
    if count == 0 {
        "ContextSend 上下文分享"@
    } else {
        "ContextSend — "@ + decimal_view(count) + " 台设备在线"@
    }
}

/// The tray tooltip: the product name, or how many devices are online.
pub fn tray_tooltip(count: usize) -> (r: String)
    ensures
        r@ == tray_tooltip_view(count as nat),
{
    if count == 0 {
        String::from_str("ContextSend 上下文分享")
    } else {
        let mut s = String::from_str("ContextSend — ");
        let n = u64_to_decimal(count as u64);
        s.append(n.as_str());
        s.append(" 台设备在线");
        s
    }
}

/// The header of the online-device section of the tray menu.
pub fn devices_header(count: usize) -> (r: String)
    ensures
        r@ == "在线设备 ("@ + decimal_view(count as nat) + ")"@,
{
    let mut s = String::from_str("在线设备 (");
    let n = u64_to_decimal(count as u64);
    s.append(n.as_str());
    s.append(")");
    s
}

/// The menu item id of an online device.
pub fn device_item_id(id: &str) -> (r: String)
    ensures
        r@ == "tray_dev_"@ + id@,
{
    let mut s = String::from_str("tray_dev_");
    s.append(id);
    s
}

/// The label of an online device in the tray menu: its name cut to 32
/// characters.
pub fn device_item_label(name: &str) -> (r: String)
    ensures
        r@ == truncate_name_view(name@, 32),
{
    truncate_name(name, 32)
}


// ---------------------------------------------------------------------------
// Online devices of the tray menu
// ---------------------------------------------------------------------------

/// The `(uuid, name)` views of a list of pairs.
pub open spec fn pairs_view(es: Seq<(String, String)>) -> Seq<(Seq<char>, Seq<char>)> {
    es.map_values(|e: (String, String)| (e.0@, e.1@))
}

/// Whether no two pairs share a UUID.
pub open spec fn unique_keys(ps: Seq<(Seq<char>, Seq<char>)>) -> bool {
    forall|i: int, j: int| 0 <= i < j < ps.len() ==> ps[i].0 != ps[j].0
}

/// The index of the pair with a UUID.
pub open spec fn key_index(ps: Seq<(Seq<char>, Seq<char>)>, k: Seq<char>) -> Option<int>
    decreases ps.len(),
{
    if ps.len() == 0 {
        None
    } else if ps[0].0 == k {
        Some(0)
    } else {
        match key_index(ps.drop_first(), k) {
            Some(i) => Some(i + 1),
            None => None,
        }
    }
}

/// The list after a device comes online: its name replaced, or appended.
pub open spec fn online_insert_view(
    ps: Seq<(Seq<char>, Seq<char>)>,
    k: Seq<char>,
    name: Seq<char>,
) -> Seq<(Seq<char>, Seq<char>)> {
    match key_index(ps, k) {
        Some(i) => ps.update(i, (k, name)),
        None => ps.push((k, name)),
    }
}

/// The list after a device goes away.
pub open spec fn online_remove_view(ps: Seq<(Seq<char>, Seq<char>)>, k: Seq<char>) -> Seq<
    (Seq<char>, Seq<char>),
> {
    match key_index(ps, k) {
        Some(i) => ps.remove(i),
        None => ps,
    }
}

/// What `key_index` finds.
proof fn lemma_key_index(ps: Seq<(Seq<char>, Seq<char>)>, k: Seq<char>)
    ensures
        match key_index(ps, k) {
            Some(i) => 0 <= i < ps.len() && ps[i].0 == k && forall|j: int|
                0 <= j < i ==> ps[j].0 != k,
            None => forall|j: int| 0 <= j < ps.len() ==> ps[j].0 != k,
        },
    decreases ps.len(),
{
    if ps.len() > 0 {
        lemma_key_index(ps.drop_first(), k);
        if ps[0].0 != k {
            assert forall|j: int| 0 < j < ps.len() implies ps[j] == ps.drop_first()[j - 1] by {}
        }
    }
}

/// The devices the tray lists as online, one entry per UUID.
pub struct OnlineDevices {
    entries: Vec<(String, String)>,
}

impl View for OnlineDevices {
    type V = Seq<(Seq<char>, Seq<char>)>;

    closed spec fn view(&self) -> Seq<(Seq<char>, Seq<char>)> {
        pairs_view(self.entries@)
    }
}

impl OnlineDevices {
    /// No two entries share a UUID.
    #[verifier::type_invariant]
    closed spec fn wf(&self) -> bool {
        unique_keys(pairs_view(self.entries@))
    }

    /// No device online.
    pub fn new() -> (t: Self)
        ensures
            t@ == Seq::<(Seq<char>, Seq<char>)>::empty(),
    {
        let t = OnlineDevices { entries: Vec::new() };
        assert(t@ =~= Seq::<(Seq<char>, Seq<char>)>::empty());
        t
    }

    fn find(&self, uuid: &str) -> (r: Option<usize>)
        ensures
            match r {
                Some(i) => key_index(self@, uuid@) == Some(i as int) && i < self@.len(),
                None => key_index(self@, uuid@) is None,
            },
    {
        let ghost ps = self@;
        let mut i: usize = 0;
        assert(ps.skip(0) =~= ps);
        while i < self.entries.len()
            invariant
                i <= self.entries@.len(),
                ps == self@,
                ps == pairs_view(self.entries@),
                key_index(ps, uuid@) == (match key_index(ps.skip(i as int), uuid@) {
                    Some(j) => Some(j + i),
                    None => None::<int>,
                }),
            decreases self.entries@.len() - i,
        {
            assert(ps.skip(i as int)[0] == ps[i as int]);
            if str_eq(self.entries[i].0.as_str(), uuid) {
                return Some(i);
            }
            assert(ps.skip(i as int).drop_first() =~= ps.skip(i + 1));
            i = i + 1;
        }
        None
    }

    /// Tracks an event of the network service: a device found online is
    /// added (or renamed), a lost one dropped; returns whether the list
    /// changed that way. Other events leave the list alone.
    pub fn track(&mut self, event: &NetEvent) -> (changed: bool)
        ensures
            match event {
                NetEvent::DeviceFound(d) => if d.online {
                    changed && final(self)@ == online_insert_view(old(self)@, d.id@, d.name@)
                } else {
                    !changed && final(self)@ == old(self)@
                },
                NetEvent::DeviceLost { uuid } => changed && final(self)@ == online_remove_view(
                    old(self)@,
                    uuid@,
                ),
                _ => !changed && final(self)@ == old(self)@,
            },
            unique_keys(final(self)@),
    {
        proof {
            use_type_invariant(&*self);
        }
        match event {
            NetEvent::DeviceFound(d) => {
                if d.online {
                    self.insert(d.id.as_str(), d.name.as_str());
                    true
                } else {
                    false
                }
            },
            NetEvent::DeviceLost { uuid } => {
                self.remove(uuid.as_str());
                true
            },
            _ => false,
        }
    }

    fn insert(&mut self, uuid: &str, name: &str)
        ensures
            final(self)@ == online_insert_view(old(self)@, uuid@, name@),
            unique_keys(final(self)@),
    {
        proof {
            use_type_invariant(&*self);
            lemma_key_index(self@, uuid@);
        }
        let ghost old_v = self@;
        let e = (String::from_str(uuid), String::from_str(name));
        match self.find(uuid) {
            Some(i) => {
                let ghost new_v = old_v.update(i as int, (uuid@, name@));
                assert(unique_keys(new_v)) by {
                    assert forall|a: int, b: int| 0 <= a < b < new_v.len() implies new_v[a].0
                        != new_v[b].0 by {
                        assert(old_v[i as int].0 == uuid@);
                    }
                }
                let mut es: Vec<(String, String)> = Vec::new();
                std::mem::swap(&mut es, &mut self.entries);
                es.set(i, e);
                assert(pairs_view(es@) =~= new_v);
                self.entries = es;
            },
            None => {
                let ghost new_v = old_v.push((uuid@, name@));
                assert(unique_keys(new_v)) by {
                    assert forall|a: int, b: int| 0 <= a < b < new_v.len() implies new_v[a].0
                        != new_v[b].0 by {
                        if b == old_v.len() {
                            assert(old_v[a].0 != uuid@);
                        }
                    }
                }
                let mut es: Vec<(String, String)> = Vec::new();
                std::mem::swap(&mut es, &mut self.entries);
                es.push(e);
                assert(pairs_view(es@) =~= new_v);
                self.entries = es;
            },
        }
    }

    fn remove(&mut self, uuid: &str)
        ensures
            final(self)@ == online_remove_view(old(self)@, uuid@),
            unique_keys(final(self)@),
    {
        proof {
            use_type_invariant(&*self);
            lemma_key_index(self@, uuid@);
        }
        let ghost old_v = self@;
        match self.find(uuid) {
            Some(i) => {
                let ghost new_v = old_v.remove(i as int);
                assert(unique_keys(new_v)) by {
                    assert forall|a: int, b: int| 0 <= a < b < new_v.len() implies new_v[a].0
                        != new_v[b].0 by {
                        let a0 = if a < i {
                            a
                        } else {
                            a + 1
                        };
                        let b0 = if b < i {
                            b
                        } else {
                            b + 1
                        };
                        assert(new_v[a] == old_v[a0]);
                        assert(new_v[b] == old_v[b0]);
                    }
                }
                let mut es: Vec<(String, String)> = Vec::new();
                std::mem::swap(&mut es, &mut self.entries);
                es.remove(i);
                assert(pairs_view(es@) =~= new_v);
                self.entries = es;
            },
            None => {},
        }
    }

    /// The online devices, `(uuid, name)`, in the order they came online.
    pub fn snapshot(&self) -> (r: Vec<(String, String)>)
        ensures
            pairs_view(r@) == self@,
    {
        let mut r: Vec<(String, String)> = Vec::new();
        let mut i: usize = 0;
        while i < self.entries.len()
            invariant
                i <= self.entries@.len(),
                pairs_view(r@) =~= pairs_view(self.entries@).take(i as int),
            decreases self.entries@.len() - i,
        {
            let e = (self.entries[i].0.clone(), self.entries[i].1.clone());
            let ghost before = pairs_view(r@);
            r.push(e);
            assert(pairs_view(r@) =~= before.push(pairs_view(self.entries@)[i as int]));
            i = i + 1;
        }
        assert(pairs_view(self.entries@).take(self.entries@.len() as int) =~= pairs_view(
            self.entries@,
        ));
        r
    }
}

/// A device reported online is listed under its UUID with its latest
/// name, and a lost one is no longer listed.
pub proof fn lemma_online_tracking(ps: Seq<(Seq<char>, Seq<char>)>, k: Seq<char>, name: Seq<char>)
    requires
        unique_keys(ps),
    ensures
        key_index(online_insert_view(ps, k, name), k) matches Some(i) && online_insert_view(
            ps,
            k,
            name,
        )[i] == (k, name),
        key_index(online_remove_view(ps, k), k) is None,
{
    lemma_key_index(ps, k);
    let ins = online_insert_view(ps, k, name);
    lemma_key_index(ins, k);
    let rem = online_remove_view(ps, k);
    lemma_key_index(rem, k);
    match key_index(ps, k) {
        Some(i) => {
            assert(ins[i].0 == k);
            assert forall|j: int| 0 <= j < rem.len() implies rem[j].0 != k by {
                if j >= i {
                    assert(rem[j] == ps[j + 1]);
                }
            }
        },
        None => {
            assert(ins[ps.len() as int].0 == k);
        },
    }
}

} // verus!
