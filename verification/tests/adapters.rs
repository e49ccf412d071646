use contextsend::adapters::{adapter_by_name, builtin_adapter_names, BuiltinAdapter, ChatBoxAdapter};
use contextsend::{AdapterError, Conversation};

#[test]
fn builtin_adapters_are_registered() {
    let names = builtin_adapter_names();
    assert!(names.contains(&"ChatBox"));
    assert!(names.contains(&"Jan"));
}

#[test]
fn adapter_by_name_is_case_insensitive() {
    assert_eq!(adapter_by_name("JAN").unwrap().app_name(), "Jan");
    assert_eq!(adapter_by_name("chatbox").unwrap().app_name(), "ChatBox");
    assert!(adapter_by_name("unknown").is_err());
}

#[test]
fn chatbox_sync_import_is_not_implemented() {
    let convo = Conversation::new();
    assert!(matches!(
        ChatBoxAdapter.import_conversation(&convo),
        Err(AdapterError::NotImplemented)
    ));
}

#[test]
fn unknown_adapter_error_carries_lowercased_name() {
    match adapter_by_name("MyApp") {
        Err(AdapterError::UnknownAdapter(n)) => assert_eq!(n, "myapp"),
        other => panic!("unexpected {:?}", other),
    }
}

#[test]
fn adapter_lookup_selects_variant() {
    assert_eq!(adapter_by_name("ChAtBoX").unwrap(), BuiltinAdapter::ChatBox);
    assert_eq!(adapter_by_name("jan").unwrap(), BuiltinAdapter::Jan);
    assert!(matches!(ChatBoxAdapter.list_conversations(), Err(AdapterError::NotImplemented)));
}
