use contextsend::{ChatMessage, ContentPart, ImageUrl, MessageContent, MessageMetadata, Role, TokenUsage};

#[test]
fn metadata_is_empty_detects_blank() {
    assert!(MessageMetadata::default().is_empty());
    assert!(TokenUsage::default().is_empty());
    let with_model = MessageMetadata { model: Some("x".into()), ..Default::default() };
    assert!(!with_model.is_empty());
}

#[test]
fn usage_with_any_count_is_not_empty() {
    let u = TokenUsage { total_tokens: Some(430), ..Default::default() };
    assert!(!u.is_empty());
    let m = MessageMetadata { usage: Some(TokenUsage::default()), ..Default::default() };
    assert!(m.is_empty());
    let m2 = MessageMetadata { usage: Some(u), ..Default::default() };
    assert!(!m2.is_empty());
}

#[test]
fn multimodal_text_uses_image_placeholder() {
    let c = MessageContent::Parts(vec![
        ContentPart::Text { text: "看这张图".into() },
        ContentPart::ImageUrl {
            image_url: ImageUrl { url: "https://example.com/a.png".into(), detail: Some("high".into()) },
        },
    ]);
    assert_eq!(c.as_text(), "看这张图[图片]");
    assert!(c.has_image());
    assert!(!MessageContent::Text("hi".into()).has_image());
}

#[test]
fn constructors_set_role_and_text() {
    let m = ChatMessage::system("你是一个助手");
    assert_eq!(m.role, Role::System);
    assert_eq!(m.text(), "你是一个助手");
    assert_eq!(ChatMessage::user(String::from("u")).role, Role::User);
    assert_eq!(ChatMessage::assistant("a").role, Role::Assistant);
    let t = ChatMessage::new(Role::Tool, "t");
    assert_eq!(t.role, Role::Tool);
    assert!(t.name.is_none() && t.metadata.is_none());
}

#[test]
fn role_names_are_lowercase() {
    assert_eq!(Role::System.as_str(), "system");
    assert_eq!(Role::User.as_str(), "user");
    assert_eq!(Role::Assistant.as_str(), "assistant");
    assert_eq!(Role::Tool.as_str(), "tool");
}

#[test]
fn string_becomes_text_content() {
    let c: MessageContent = String::from("嗯").into();
    assert_eq!(c, MessageContent::Text("嗯".into()));
}
