use contextsend::identity::DeviceIdentity;
use contextsend::service::{Device, NetEvent};
use contextsend::ui::{
    app_info, device_item_id, device_item_label, devices_header, local_hello, self_identity,
    tray_tooltip, OnlineDevices,
};

fn found(id: &str, name: &str, online: bool) -> NetEvent {
    NetEvent::DeviceFound(Device {
        id: id.into(),
        name: name.into(),
        online,
        os: "linux".into(),
        ip: "10.0.0.1".into(),
    })
}

#[test]
fn app_info_lists_builtin_adapters() {
    let info = app_info("0.1.0", "linux");
    assert_eq!(info.version, "0.1.0");
    assert_eq!(info.platform, "linux");
    assert_eq!(info.adapters, vec!["Jan".to_string(), "ChatBox".to_string()]);
}

#[test]
fn identity_views_copy_fields() {
    let id = DeviceIdentity { uuid: "u-1".into(), name: "晨雾微风".into() };
    let s = self_identity(&id);
    assert_eq!((s.uuid.as_str(), s.name.as_str()), ("u-1", "晨雾微风"));
    let h = local_hello(&id);
    assert_eq!((h.uuid.as_str(), h.name.as_str()), ("u-1", "晨雾微风"));
}

#[test]
fn tray_texts() {
    assert_eq!(tray_tooltip(0), "ContextSend 上下文分享");
    assert_eq!(tray_tooltip(3), "ContextSend — 3 台设备在线");
    assert_eq!(devices_header(2), "在线设备 (2)");
    assert_eq!(device_item_id("abc"), "tray_dev_abc");
    assert_eq!(device_item_label("短名"), "短名");
    assert_eq!(device_item_label(&"名".repeat(33)), format!("{}\u{2026}", "名".repeat(32)));
}

#[test]
fn online_devices_follow_events() {
    let mut online = OnlineDevices::new();
    assert!(online.track(&found("a", "甲", true)));
    assert!(online.track(&found("b", "乙", true)));
    assert!(online.track(&found("a", "甲2", true)));
    assert!(!online.track(&found("c", "丙", false)));
    assert_eq!(
        online.snapshot(),
        vec![("a".to_string(), "甲2".to_string()), ("b".to_string(), "乙".to_string())]
    );
    assert!(online.track(&NetEvent::DeviceLost { uuid: "a".into() }));
    assert_eq!(online.snapshot(), vec![("b".to_string(), "乙".to_string())]);
    assert!(!online.track(&NetEvent::Failed { pairing_id: 0, reason: "x".into() }));
    assert!(online.track(&NetEvent::DeviceLost { uuid: "zzz".into() }));
    assert_eq!(online.snapshot().len(), 1);
}
