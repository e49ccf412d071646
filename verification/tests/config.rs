use contextsend::config::{AdapterConfig, AdapterOverride};

#[test]
fn override_lookup_ignores_ascii_case() {
    let mut c = AdapterConfig::new();
    contextsend::config::set(&mut c, "ChatBox", AdapterOverride { data_dir: None, install_dir: None, port: Some(9333) });
    assert_eq!(contextsend::config::get(&c, "chatbox").port, Some(9333));
    assert_eq!(c.get("CHATBOX").port, Some(9333));
    assert_eq!(c.entries().len(), 1);
    assert_eq!(c.entries()[0].0, "chatbox");
}

#[test]
fn missing_override_is_default() {
    let c = AdapterConfig::new();
    let ov = contextsend::config::get(&c, "jan");
    assert!(ov.data_dir.is_none() && ov.install_dir.is_none() && ov.port.is_none());
}

#[test]
fn set_replaces_whole_override() {
    let mut c = AdapterConfig::new();
    c.set("Jan", AdapterOverride { data_dir: Some("/a".into()), install_dir: None, port: None });
    c.set("jan", AdapterOverride { data_dir: None, install_dir: Some("/b".into()), port: None });
    let ov = c.get("JAN");
    assert!(ov.data_dir.is_none());
    assert_eq!(ov.install_dir.as_deref(), Some("/b"));
    assert_eq!(c.entries().len(), 1);
}

#[test]
fn from_entries_keeps_stored_keys() {
    let c = AdapterConfig::from_entries(vec![
        ("jan".to_string(), AdapterOverride { data_dir: Some("/j".into()), install_dir: None, port: None }),
        ("ChatBox".to_string(), AdapterOverride { data_dir: None, install_dir: None, port: Some(1) }),
    ]);
    assert_eq!(c.get("JAN").data_dir.as_deref(), Some("/j"));
    assert!(c.get("chatbox").port.is_none());
}
