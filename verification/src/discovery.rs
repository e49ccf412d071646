//! LAN discovery (mDNS): what a resolved or removed service record means.
//!
//! Every instance registers itself under [`SERVICE_TYPE`] with TXT entries
//! `uuid`, `name` and `os`, and browses the same type. The mDNS daemon runs
//! in the application; this module turns its records into discovery events.

use vstd::prelude::*;
use vstd::string::*;

use crate::identity::{truncate_name, truncate_name_view, NAME_MAX_LEN};
use crate::json::str_eq;
use crate::text::{chars_of, find_char, index_of, slice_chars, string_from_chars};

verus! {

broadcast use vstd::string::group_string_axioms;

/// The mDNS service type of ContextSend.
pub const SERVICE_TYPE: &'static str = "_contextsend._tcp.local.";

/// Re-announcement interval in seconds (covers lost multicast packets).
pub const REANNOUNCE_INTERVAL_SECS: u64 = 30;

/// An IP address by its parts.
#[derive(Debug, Clone, Copy, PartialEq, Eq)]
pub enum IpAddress {
    V4([u8; 4]),
    V6([u16; 8]),
}

/// A socket address of a peer, with the text form of its IP (as the
/// standard library displays it).
#[derive(Debug, Clone)]
pub struct NetAddr {
    pub ip: IpAddress,
    pub port: u16,
    pub ip_text: String,
}

/// Whether an address is a loopback address (`127.0.0.0/8`, `::1`).
pub open spec fn is_loopback_view(ip: IpAddress) -> bool {
    match ip {
        IpAddress::V4(o) => o@[0] == 127,
        IpAddress::V6(s) => s@[0] == 0 && s@[1] == 0 && s@[2] == 0 && s@[3] == 0 && s@[4] == 0
            && s@[5] == 0 && s@[6] == 0 && s@[7] == 1,
    }
}

impl IpAddress {
    /// Whether the address is a loopback address.
    pub fn is_loopback(&self) -> (b: bool)
        ensures
            b == is_loopback_view(*self),
    {
        match self {
            IpAddress::V4(o) => o[0] == 127,
            IpAddress::V6(s) => s[0] == 0 && s[1] == 0 && s[2] == 0 && s[3] == 0 && s[4] == 0
                && s[5] == 0 && s[6] == 0 && s[7] == 1,
        }
    }

    /// Whether the address is IPv4.
    pub fn is_ipv4(&self) -> (b: bool)
        ensures
            b == (*self is V4),
    {
        match self {
            IpAddress::V4(_) => true,
            IpAddress::V6(_) => false,
        }
    }
}

/// Abstract peer address.
pub struct NetAddrView {
    pub ip: IpAddress,
    pub port: u16,
    pub ip_text: Seq<char>,
}

impl View for NetAddr {
    type V = NetAddrView;

    open spec fn view(&self) -> NetAddrView {
        NetAddrView { ip: self.ip, port: self.port, ip_text: self.ip_text@ }
    }
}

/// The views of a list of addresses.
pub open spec fn addrs_view(a: Seq<NetAddr>) -> Seq<NetAddrView> {
    a.map_values(|x: NetAddr| x@)
}

/// A device found through mDNS.
#[derive(Debug, Clone)]
pub struct DiscoveredDevice {
    pub uuid: String,
    pub name: String,
    /// The peer's operating system (`windows` / `linux` / `macos` ...).
    pub os: String,
    /// Every address the peer announced; connection tries them in order.
    pub addrs: Vec<NetAddr>,
}

/// Abstract discovered device.
pub struct DiscoveredView {
    pub uuid: Seq<char>,
    pub name: Seq<char>,
    pub os: Seq<char>,
    pub addrs: Seq<NetAddrView>,
}

impl View for DiscoveredDevice {
    type V = DiscoveredView;

    open spec fn view(&self) -> DiscoveredView {
        DiscoveredView {
            uuid: self.uuid@,
            name: self.name@,
            os: self.os@,
            addrs: addrs_view(self.addrs@),
        }
    }
}

/// What discovery reports.
#[derive(Debug, Clone)]
pub enum DiscoveryEvent {
    /// A device was found (or updated).
    Found(DiscoveredDevice),
    /// A device went away.
    Lost { uuid: String },
}

/// The instance name of a full mDNS name `<instance>._contextsend._tcp.local.`:
/// everything before the first `.`.
pub open spec fn instance_of_view(fullname: Seq<char>) -> Seq<char> {
    match index_of(fullname, '.') {
        Some(i) => fullname.take(i),
        None => fullname,
    }
}

/// Extracts the instance name (the device UUID) of a full mDNS name.
pub fn instance_of(fullname: &str) -> (r: String)
    ensures
        r@ == instance_of_view(fullname@),
{
    let cs = chars_of(fullname);
    match find_char(cs.as_slice(), '.') {
        Some(i) => {
            let head = slice_chars(cs.as_slice(), 0, i);
            assert(head@ =~= fullname@.take(i as int));
            string_from_chars(head.as_slice())
        },
        None => String::from_str(fullname),
    }
}

/// The device UUID of a resolved record: its `uuid` entry, else the
/// instance name.
pub open spec fn resolved_uuid(fullname: Seq<char>, uuid_prop: Option<Seq<char>>) -> Seq<char> {
    match uuid_prop {
        Some(u) => u,
        None => instance_of_view(fullname),
    }
}

/// The event of a resolved service record: none for this device itself or
/// for a record without addresses; otherwise the device with its name cut to
/// 32 characters (the UUID when unnamed) and its OS (empty when unknown).
pub open spec fn resolved_event_view(
    self_uuid: Seq<char>,
    fullname: Seq<char>,
    uuid_prop: Option<Seq<char>>,
    name_prop: Option<Seq<char>>,
    os_prop: Option<Seq<char>>,
    addrs: Seq<NetAddrView>,
) -> Option<DiscoveredView> {
    let uuid = resolved_uuid(fullname, uuid_prop);
    if uuid == self_uuid || addrs.len() == 0 {
        None
    } else {
        Some(
            DiscoveredView {
                uuid,
                name: match name_prop {
                    Some(n) => truncate_name_view(n, NAME_MAX_LEN as nat),
                    None => uuid,
                },
                os: match os_prop {
                    Some(o) => o,
                    None => Seq::empty(),
                },
                addrs,
            },
        )
    }
}

/// The view of an optional string slice.
pub open spec fn opt_str_view(o: Option<&str>) -> Option<Seq<char>> {
    match o {
        Some(s) => Some(s@),
        None => None,
    }
}

/// Decides what a resolved mDNS record reports.
pub fn resolved_event(
    self_uuid: &str,
    fullname: &str,
    uuid_prop: Option<&str>,
    name_prop: Option<&str>,
    os_prop: Option<&str>,
    addrs: Vec<NetAddr>,
) -> (r: Option<DiscoveryEvent>)
    ensures
        match resolved_event_view(
            self_uuid@,
            fullname@,
            opt_str_view(uuid_prop),
            opt_str_view(name_prop),
            opt_str_view(os_prop),
            addrs_view(addrs@),
        ) {
            Some(d) => (r matches Some(DiscoveryEvent::Found(dev)) && dev@ == d),
            None => r is None,
        },
{
    let uuid = match uuid_prop {
        Some(u) => String::from_str(u),
        None => instance_of(fullname),
    };
    if str_eq(uuid.as_str(), self_uuid) || addrs.len() == 0 {
        return None;
    }
    let name = match name_prop {
        Some(n) => truncate_name(n, NAME_MAX_LEN),
        None => uuid.clone(),
    };
    let os = match os_prop {
        Some(o) => String::from_str(o),
        None => String::new(),
    };
    Some(DiscoveryEvent::Found(DiscoveredDevice { uuid, name, os, addrs }))
}

/// Decides what a removed mDNS record reports: the loss of the device named
/// by its instance, unless it is this device.
pub fn removed_event(self_uuid: &str, fullname: &str) -> (r: Option<DiscoveryEvent>)
    ensures
        instance_of_view(fullname@) == self_uuid@ ==> r is None,
        instance_of_view(fullname@) != self_uuid@ ==> (r matches Some(DiscoveryEvent::Lost { uuid })
            && uuid@ == instance_of_view(fullname@)),
{
    let uuid = instance_of(fullname);
    if str_eq(uuid.as_str(), self_uuid) {
        None
    } else {
        Some(DiscoveryEvent::Lost { uuid })
    }
}

/// The full mDNS name of this device's service: `<uuid>.<SERVICE_TYPE>`.
pub fn service_fullname(uuid: &str) -> (r: String)
    ensures
        r@ == uuid@ + seq!['.'] + SERVICE_TYPE@,
{
    let mut s = String::from_str(uuid);
    let dot = ".";
    proof {
        reveal_strlit(".");
    }
    s.append(dot);
    s.append(SERVICE_TYPE);
    s
}

/// The host name of this device's service: `<uuid>.local.`.
pub fn service_host(uuid: &str) -> (r: String)
    ensures
        r@ == uuid@ + ".local."@,
{
    let mut s = String::from_str(uuid);
    s.append(".local.");
    s
}


/// The instance name of this device's own service full name is its UUID
/// (UUIDs hold no `.`), so its own records are recognized and skipped.
pub proof fn lemma_own_record_recognized(uuid: Seq<char>)
    requires
        forall|i: int| 0 <= i < uuid.len() ==> uuid[i] != '.',
    ensures
        instance_of_view(uuid + seq!['.'] + SERVICE_TYPE@) == uuid,
{
    let full = uuid + seq!['.'] + SERVICE_TYPE@;
    assert(full[uuid.len() as int] == '.');
    assert(exists|i: int| 0 <= i < full.len() && full[i] == '.');
    let j = choose|i: int| 0 <= i < full.len() && full[i] == '.' && forall|k: int| 0 <= k < i ==> full[k] != '.';
    assert forall|k: int| 0 <= k < uuid.len() implies full[k] != '.' by {
        assert(full[k] == uuid[k]);
    }
    if j < uuid.len() {
        assert(full[j] == uuid[j]);
    } else if j > uuid.len() {
        assert(full[uuid.len() as int] != '.');
    }
    assert(full.take(j) =~= uuid);
}

} // verus!
