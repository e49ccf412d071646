use contextsend::json::{Json, JsonNumber};
use contextsend::openai::{
    conversation_from_json, conversation_to_json, export_openai, import_openai,
    message_from_json, message_to_json,
};
use contextsend::wire::{
    app_message_from_json, app_message_to_json, hello_from_json, hello_to_json, AppMessage, Hello,
};
use contextsend::{
    ChatMessage, ContentPart, Conversation, CoreError, ImageUrl, MessageContent, MessageMetadata,
    Role, TokenUsage,
};
use serde_json::Value;

fn from_value(v: &Value) -> Json {
    match v {
        Value::Null => Json::Null,
        Value::Bool(b) => Json::Bool(*b),
        Value::Number(n) => Json::Number(match (n.as_u64(), n.as_i64()) {
            (Some(u), _) => JsonNumber::PosInt(u),
            (None, Some(i)) => JsonNumber::NegInt(i),
            _ => JsonNumber::Float(n.to_string()),
        }),
        Value::String(s) => Json::Str(s.clone()),
        Value::Array(a) => Json::Array(a.iter().map(from_value).collect()),
        Value::Object(m) => Json::Object(m.iter().map(|(k, v)| (k.clone(), from_value(v))).collect()),
    }
}

fn to_value(j: &Json) -> Value {
    match j {
        Json::Null => Value::Null,
        Json::Bool(b) => Value::Bool(*b),
        Json::Number(JsonNumber::PosInt(u)) => Value::from(*u),
        Json::Number(JsonNumber::NegInt(i)) => Value::from(*i),
        Json::Number(JsonNumber::Float(s)) => Value::Number(s.parse().unwrap()),
        Json::Str(s) => Value::String(s.clone()),
        Json::Array(a) => Value::Array(a.iter().map(to_value).collect()),
        Json::Object(es) => {
            let mut m = serde_json::Map::new();
            for (k, v) in es {
                m.insert(k.clone(), to_value(v));
            }
            Value::Object(m)
        }
    }
}

fn parse(text: &str) -> Json {
    from_value(&serde_json::from_str::<Value>(text).unwrap())
}

fn text(j: &Json) -> String {
    to_value(j).to_string()
}

fn import_text(t: &str) -> Result<Conversation, CoreError> {
    import_openai(&parse(t))
}

fn export_text(c: &Conversation) -> String {
    text(&export_openai(c))
}

#[test]
fn imports_full_request_body() {
    let json = r#"{
        "model": "gpt-4o",
        "messages": [
            {"role": "system", "content": "你是助手"},
            {"role": "user", "content": "你好"}
        ]
    }"#;
    let convo = import_text(json).unwrap();
    assert_eq!(convo.model.as_deref(), Some("gpt-4o"));
    assert_eq!(convo.messages.len(), 2);
    assert_eq!(convo.messages[1].text(), "你好");
}

#[test]
fn imports_bare_messages_array() {
    let json = r#"[{"role":"user","content":"hi"}]"#;
    let convo = import_text(json).unwrap();
    assert!(convo.model.is_none());
    assert_eq!(convo.messages.len(), 1);
    assert_eq!(convo.messages[0].role, Role::User);
}

#[test]
fn ignores_unknown_fields() {
    let json = r#"{
        "model": "x",
        "temperature": 0.7,
        "stream": true,
        "messages": [{"role":"user","content":"a"}]
    }"#;
    let convo = import_text(json).unwrap();
    assert_eq!(convo.messages.len(), 1);
}

#[test]
fn export_then_import_roundtrips() {
    let convo = Conversation {
        title: Some("演示".into()),
        model: Some("gpt-4o".into()),
        messages: vec![
            ChatMessage::system("系统提示"),
            ChatMessage::user("问题"),
            ChatMessage::assistant("回答"),
        ],
    };
    let json = export_text(&convo);
    let back = import_text(&json).unwrap();
    assert_eq!(convo, back);
}

#[test]
fn multimodal_message_roundtrips_through_export() {
    let convo = Conversation {
        title: None,
        model: None,
        messages: vec![ChatMessage {
            role: Role::User,
            content: MessageContent::Parts(vec![
                ContentPart::Text { text: "图里是啥".into() },
                ContentPart::ImageUrl {
                    image_url: ImageUrl { url: "data:image/png;base64,AAAA".into(), detail: None },
                },
            ]),
            name: None,
            metadata: None,
        }],
    };
    let json = export_text(&convo);
    let back = import_text(&json).unwrap();
    assert_eq!(convo, back);
}

#[test]
fn plain_text_content_serializes_as_string() {
    let msg = ChatMessage::user("你好");
    let json = message_to_json(&msg);
    assert_eq!(json.get("content"), Some(&Json::Str("你好".into())));
}

#[test]
fn multimodal_content_roundtrips() {
    let msg = ChatMessage {
        role: Role::User,
        content: MessageContent::Parts(vec![
            ContentPart::Text { text: "看这张图".into() },
            ContentPart::ImageUrl {
                image_url: ImageUrl {
                    url: "https://example.com/a.png".into(),
                    detail: Some("high".into()),
                },
            },
        ]),
        name: None,
        metadata: None,
    };
    let json = text(&message_to_json(&msg));
    assert!(json.contains("\"type\":\"text\""));
    assert!(json.contains("\"type\":\"image_url\""));

    let back = message_from_json(&parse(&json)).unwrap();
    assert_eq!(msg, back);
    assert!(back.content.has_image());
    assert_eq!(back.text(), "看这张图[图片]");
}

#[test]
fn string_content_deserializes_into_text_variant() {
    let msg = message_from_json(&parse(r#"{"role":"assistant","content":"嗯"}"#)).unwrap();
    assert_eq!(msg.content, MessageContent::Text("嗯".into()));
    assert_eq!(msg.text(), "嗯");
    assert!(msg.metadata.is_none());
}

#[test]
fn metadata_is_skipped_when_absent_and_roundtrips_when_present() {
    let plain = ChatMessage::user("你好");
    let json = text(&message_to_json(&plain));
    assert!(!json.contains("metadata"));

    let msg = ChatMessage {
        role: Role::Assistant,
        content: MessageContent::Text("答复".into()),
        name: None,
        metadata: Some(MessageMetadata {
            model: Some("OpenAI API (gpt-4o)".into()),
            provider: Some("openai".into()),
            usage: Some(TokenUsage {
                input_tokens: Some(15),
                output_tokens: Some(415),
                total_tokens: Some(430),
                reasoning_tokens: Some(0),
                cached_input_tokens: Some(0),
            }),
            first_token_latency_ms: Some(10319),
            finish_reason: Some("stop".into()),
        }),
    };
    let json = text(&message_to_json(&msg));
    assert!(json.contains("\"firstTokenLatencyMs\":10319"));
    assert!(json.contains("\"totalTokens\":430"));
    let back = message_from_json(&parse(&json)).unwrap();
    assert_eq!(msg, back);
}

#[test]
fn conversation_roundtrips_through_openai_json() {
    let mut convo = Conversation::new();
    convo.model = Some("gpt-4o".to_string());
    convo.messages.push(ChatMessage::system("你是一个助手"));
    convo.messages.push(ChatMessage::user("你好"));

    let json = text(&conversation_to_json(&convo));
    assert!(json.contains("\"role\":\"user\""));
    assert!(json.contains("\"role\":\"system\""));

    let back = conversation_from_json(&parse(&json)).expect("反序列化应成功");
    assert_eq!(convo, back);
}

#[test]
fn import_refuses_other_shapes() {
    match import_text(r#"{"messages": 3}"#) {
        Err(CoreError::Serde(m)) => {
            assert_eq!(m, "data did not match any variant of untagged enum OpenAiImport")
        }
        _ => panic!("应被拒绝"),
    }
    assert!(matches!(import_text(r#""just text""#), Err(CoreError::Serde(_))));
    assert!(matches!(
        import_text(r#"[{"role":"robot","content":"x"}]"#),
        Err(CoreError::Serde(_))
    ));
    assert!(matches!(import_text(r#"[{"role":"user"}]"#), Err(CoreError::Serde(_))));
    assert!(matches!(
        import_text(r#"{"model": 5, "messages": []}"#),
        Err(CoreError::Serde(_))
    ));
}

#[test]
fn null_optional_members_read_as_absent() {
    let c = import_text(r#"{"title": null, "model": null, "messages": [{"role":"tool","content":[],"name":null,"metadata":null}]}"#).unwrap();
    assert!(c.title.is_none() && c.model.is_none());
    assert_eq!(c.messages[0].role, Role::Tool);
    assert_eq!(c.messages[0].content, MessageContent::Parts(vec![]));
    assert!(c.messages[0].name.is_none() && c.messages[0].metadata.is_none());
}

#[test]
fn usage_counts_must_be_unsigned_integers() {
    let bad = r#"[{"role":"assistant","content":"x","metadata":{"usage":{"totalTokens":-1}}}]"#;
    assert!(import_text(bad).is_err());
    let ok = r#"[{"role":"assistant","content":"x","metadata":{"usage":{"totalTokens":7}}}]"#;
    let c = import_text(ok).unwrap();
    let md = c.messages[0].metadata.as_ref().unwrap();
    assert_eq!(md.usage.unwrap().total_tokens, Some(7));
}

#[test]
fn hello_roundtrips_through_json() {
    let hello = Hello { version: 1, uuid: "u-1".into(), name: "晨雾微风".into(), pubkey: [7u8; 32] };
    let back = hello_from_json(&parse(&text(&hello_to_json(&hello)))).unwrap();
    assert_eq!(back.uuid, "u-1");
    assert_eq!(back.name, "晨雾微风");
    assert_eq!(back.version, 1);
    assert_eq!(back.pubkey, [7u8; 32]);
}

#[test]
fn hello_with_short_key_is_refused() {
    let j = parse(r#"{"version":1,"uuid":"u","name":"n","pubkey":[1,2,3]}"#);
    assert!(hello_from_json(&j).is_err());
    let j = parse(r#"{"version":300,"uuid":"u","name":"n","pubkey":[]}"#);
    assert!(hello_from_json(&j).is_err());
}

#[test]
fn app_messages_roundtrip_through_json() {
    let convo = Conversation {
        title: Some("跨设备演示".into()),
        model: Some("gpt-4o".into()),
        messages: vec![ChatMessage::system("你是一个有用的助手"), ChatMessage::user("帮我写个排序")],
    };
    let push = app_message_to_json(&AppMessage::PushConversation(convo.clone()));
    assert!(text(&push).contains("\"kind\":\"push_conversation\""));
    match app_message_from_json(&parse(&text(&push))).unwrap() {
        AppMessage::PushConversation(c) => assert_eq!(c, convo),
        AppMessage::Ack => panic!("期望 PushConversation"),
    }
    let ack = text(&app_message_to_json(&AppMessage::Ack));
    assert_eq!(ack, r#"{"kind":"ack"}"#);
    assert!(matches!(app_message_from_json(&parse(&ack)).unwrap(), AppMessage::Ack));
    assert!(app_message_from_json(&parse(r#"{"kind":"other"}"#)).is_err());
}
