use contextsend::crypto::KeyExchange;
use contextsend::discovery::{
    instance_of, removed_event, resolved_event, service_fullname, service_host, DiscoveredDevice,
    DiscoveryEvent, IpAddress, NetAddr,
};
use contextsend::identity::{truncate_name, DeviceIdentity, NAME_MAX_LEN};
use contextsend::naming::random_name;
use contextsend::pairing::{finish_handshake, local_hello_message, LocalHello, PeerInfo};
use contextsend::service::{device_entry, primary_ip, DeviceTable, NetEvent, PendingTable};
use contextsend::wire::{encode_frame, frame_header, frame_len, Hello, MAX_FRAME_LEN, PROTOCOL_VERSION};
use contextsend::NetworkError;

fn v4(a: u8, b: u8, c: u8, d: u8) -> NetAddr {
    NetAddr { ip: IpAddress::V4([a, b, c, d]), port: 4000, ip_text: format!("{a}.{b}.{c}.{d}") }
}

fn device(uuid: &str, name: &str, addrs: Vec<NetAddr>) -> DiscoveredDevice {
    DiscoveredDevice { uuid: uuid.into(), name: name.into(), os: "windows".into(), addrs }
}

#[test]
fn instance_of_extracts_uuid() {
    let full = "abc-123._contextsend._tcp.local.";
    assert_eq!(instance_of(full), "abc-123");
}

#[test]
fn instance_of_without_dot_is_whole_name() {
    assert_eq!(instance_of("plain"), "plain");
}

#[test]
fn service_names_are_built_from_uuid() {
    assert_eq!(service_fullname("u-1"), "u-1._contextsend._tcp.local.");
    assert_eq!(service_host("u-1"), "u-1.local.");
    assert_eq!(instance_of(&service_fullname("u-1")), "u-1");
}

#[test]
fn random_name_is_non_empty_chinese() {
    let name = random_name();
    assert!(!name.is_empty());
    assert!(name.chars().count() >= 4);
}

#[test]
fn rename_rejects_empty() {
    let mut id = DeviceIdentity::generate();
    let before = id.clone();
    let result = id.rename("   ");
    assert!(result.is_err(), "纯空格名应被拒绝");
    assert_eq!(id, before);
}

#[test]
fn rename_rejects_too_long() {
    let mut id = DeviceIdentity::generate();
    let long_name = "测".repeat(33);
    let result = id.rename(long_name);
    assert!(result.is_err(), "超过 32 字符名应被拒绝");
}

#[test]
fn rename_allows_valid_name() {
    let mut id = DeviceIdentity::generate();
    id.rename("My 笔记本").unwrap();
    assert_eq!(id.name, "My 笔记本");
}

#[test]
fn rename_trims_and_accepts_exactly_max_len() {
    let mut id = DeviceIdentity::generate();
    let uuid = id.uuid.clone();
    id.rename(format!("  {}  ", "测".repeat(32))).unwrap();
    assert_eq!(id.name.chars().count(), 32);
    assert_eq!(id.uuid, uuid);
    assert!(matches!(id.rename(""), Err(NetworkError::InvalidName(_))));
}

#[test]
fn generated_identity_has_uuid_and_name() {
    let id = DeviceIdentity::generate();
    assert_eq!(id.uuid.len(), 36);
    assert!(id.name.chars().count() >= 4);
}

#[test]
fn truncate_name_keeps_first_chars() {
    assert_eq!(truncate_name("abcdef", 3), "abc\u{2026}");
    assert_eq!(truncate_name("abc", 3), "abc");
    assert_eq!(truncate_name("晨雾", NAME_MAX_LEN), "晨雾");
}

#[test]
fn frame_header_is_big_endian() {
    assert_eq!(frame_header(0x000A_0B0C).unwrap(), [0, 10, 11, 12]);
    assert_eq!(frame_header(MAX_FRAME_LEN as usize).unwrap(), [1, 0, 0, 0]);
    assert_eq!(frame_len([0, 0, 4, 0]).unwrap(), 1024);
    assert!(frame_header(MAX_FRAME_LEN as usize + 1).is_err());
    assert!(frame_len([0xFF, 0, 0, 0]).is_err());
}

#[test]
fn encoded_frame_is_header_then_payload() {
    let f = encode_frame(b"contextsend").unwrap();
    assert_eq!(&f[..4], &[0, 0, 0, 11]);
    assert_eq!(&f[4..], b"contextsend");
    let mut h = [0u8; 4];
    h.copy_from_slice(&f[..4]);
    assert_eq!(frame_len(h).unwrap(), 11);
}

#[test]
fn handshake_derives_matching_keys() {
    let a = KeyExchange::generate();
    let b = KeyExchange::generate();
    let a_hello = local_hello_message(&LocalHello { uuid: "u-a".into(), name: "甲".into() }, &a);
    let b_hello = local_hello_message(&LocalHello { uuid: "u-b".into(), name: "乙".into() }, &b);
    assert_eq!(a_hello.version, PROTOCOL_VERSION);
    let (info_a, keys_a) = finish_handshake(a, b_hello).unwrap();
    let (info_b, keys_b) = finish_handshake(b, a_hello).unwrap();
    assert_eq!(info_a, PeerInfo { uuid: "u-b".into(), name: "乙".into() });
    assert_eq!(info_b.uuid, "u-a");
    assert_eq!(keys_a.pin(), keys_b.pin());
    let ct = keys_a.cipher().encrypt(b"push").unwrap();
    assert_eq!(keys_b.cipher().decrypt(&ct).unwrap(), b"push");
}

#[test]
fn handshake_refuses_other_version() {
    let a = KeyExchange::generate();
    let b = KeyExchange::generate();
    let hello = Hello { version: 2, uuid: "x".into(), name: "y".into(), pubkey: b.public_bytes() };
    match finish_handshake(a, hello) {
        Err(NetworkError::Protocol(msg)) => assert_eq!(msg, "不支持的协议版本: 2"),
        _ => panic!("版本不符应被拒绝"),
    }
}

#[test]
fn resolved_event_skips_self_and_empty_addresses() {
    let addrs = vec![v4(192, 168, 1, 2)];
    assert!(resolved_event("me", "me._contextsend._tcp.local.", None, None, None, addrs.clone())
        .is_none());
    assert!(resolved_event("me", "peer._contextsend._tcp.local.", None, None, None, vec![])
        .is_none());
    match resolved_event(
        "me",
        "peer._contextsend._tcp.local.",
        Some("uuid-1"),
        Some("晨雾微风"),
        Some("windows"),
        addrs,
    ) {
        Some(DiscoveryEvent::Found(d)) => {
            assert_eq!(d.uuid, "uuid-1");
            assert_eq!(d.name, "晨雾微风");
            assert_eq!(d.os, "windows");
            assert_eq!(d.addrs.len(), 1);
        }
        _ => panic!("应发现设备"),
    }
}

#[test]
fn resolved_event_falls_back_to_instance_name() {
    match resolved_event("me", "peer._contextsend._tcp.local.", None, None, None, vec![v4(10, 0, 0, 1)]) {
        Some(DiscoveryEvent::Found(d)) => {
            assert_eq!(d.uuid, "peer");
            assert_eq!(d.name, "peer");
            assert_eq!(d.os, "");
        }
        _ => panic!("应发现设备"),
    }
}

#[test]
fn removed_event_reports_loss_of_others_only() {
    assert!(removed_event("me", "me._contextsend._tcp.local.").is_none());
    match removed_event("me", "peer._contextsend._tcp.local.") {
        Some(DiscoveryEvent::Lost { uuid }) => assert_eq!(uuid, "peer"),
        _ => panic!("应报告离线"),
    }
}

#[test]
fn primary_ip_prefers_public_ipv4() {
    let addrs = vec![v4(127, 0, 0, 1), v4(192, 168, 1, 2)];
    assert_eq!(primary_ip(&addrs), "192.168.1.2");
    assert_eq!(primary_ip(&vec![]), "");
    assert_eq!(primary_ip(&vec![v4(127, 0, 0, 1)]), "127.0.0.1");
}

#[test]
fn device_entry_lists_found_device() {
    let d = device_entry(&device("uuid-1", "晨雾微风", vec![v4(192, 168, 1, 2)]));
    assert_eq!(d.id, "uuid-1");
    assert_eq!(d.name, "晨雾微风");
    assert!(d.online);
    assert_eq!(d.os, "windows");
    assert_eq!(d.ip, "192.168.1.2");
}

#[test]
fn device_table_upserts_and_removes() {
    let mut t = DeviceTable::new();
    t.found(device("a", "A", vec![v4(10, 0, 0, 1)]));
    t.found(device("b", "B", vec![v4(10, 0, 0, 2)]));
    t.found(device("a", "A2", vec![v4(10, 0, 0, 3)]));
    let list = t.list_devices();
    assert_eq!(list.len(), 2);
    assert_eq!(list[0].name, "A2");
    assert_eq!(list[0].ip, "10.0.0.3");
    assert_eq!(t.addrs_for("b").unwrap()[0].ip_text, "10.0.0.2");
    t.lost("a");
    assert_eq!(t.list_devices().len(), 1);
    assert!(t.addrs_for("a").is_err());
    match t.apply(DiscoveryEvent::Lost { uuid: "b".into() }) {
        NetEvent::DeviceLost { uuid } => assert_eq!(uuid, "b"),
        _ => panic!("应报告离线"),
    }
    assert!(t.list_devices().is_empty());
}

#[test]
fn pending_table_hands_out_ids_once() {
    let mut p: PendingTable<String> = PendingTable::new();
    let id1 = p.insert("x".to_string());
    let id2 = p.insert("y".to_string());
    assert_eq!(id1, 1);
    assert_eq!(id2, 2);
    assert_eq!(p.take(id1).unwrap(), "x");
    assert!(p.take(id1).is_err());
    assert_eq!(p.take(id2).unwrap(), "y");
    assert!(matches!(p.take(99), Err(NetworkError::Protocol(_))));
}

#[test]
fn generated_uuid_is_hyphenated_v4() {
    let id = DeviceIdentity::generate();
    let cs: Vec<char> = id.uuid.chars().collect();
    assert_eq!(cs.len(), 36);
    for (i, c) in cs.iter().enumerate() {
        if [8, 13, 18, 23].contains(&i) {
            assert_eq!(*c, '-');
        } else {
            assert!(c.is_ascii_hexdigit() && !c.is_ascii_uppercase());
        }
    }
    assert_eq!(cs[14], '4');
    assert!(['8', '9', 'a', 'b'].contains(&cs[19]));
}
