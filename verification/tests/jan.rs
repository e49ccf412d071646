use contextsend::jan::{
    content_blocks, content_to_text, conversation_from_thread, data_folder_setting,
    import_title, jsonl_records, message_record_json, role_str, text_block, thread_meta_json,
    JanAdapter,
};
use contextsend::json::Json;
use contextsend::{ChatMessage, ContentPart, Conversation, ImageUrl, MessageContent, Role};

fn s(x: &str) -> Json {
    Json::Str(x.to_string())
}

fn obj(es: Vec<(&str, Json)>) -> Json {
    Json::Object(es.into_iter().map(|(k, v)| (k.to_string(), v)).collect())
}

fn at(j: &Json, i: usize) -> &Json {
    &j.as_array().unwrap()[i]
}

#[test]
fn role_maps_to_openai_strings() {
    assert_eq!(role_str(Role::User), "user");
    assert_eq!(role_str(Role::Assistant), "assistant");
    assert_eq!(role_str(Role::System), "system");
}

#[test]
fn text_content_becomes_jan_block() {
    let blocks = content_blocks(&MessageContent::Text("你好".into()));
    let b0 = at(&blocks, 0);
    assert_eq!(b0.get("type").unwrap().as_str(), Some("text"));
    assert_eq!(b0.get("text").unwrap().get("value").unwrap().as_str(), Some("你好"));
    assert!(b0.get("text").unwrap().get("annotations").unwrap().as_array().is_some());
}

#[test]
fn empty_content_still_yields_a_block() {
    let blocks = content_blocks(&MessageContent::Parts(vec![]));
    assert_eq!(blocks.as_array().unwrap().len(), 1);
    assert_eq!(at(&blocks, 0).get("text").unwrap().get("value").unwrap().as_str(), Some(""));
}

#[test]
fn jan_content_roundtrips_to_text() {
    let content = Json::Array(vec![
        obj(vec![
            ("type", s("text")),
            ("text", obj(vec![("value", s("看这张图")), ("annotations", Json::Array(vec![]))])),
        ]),
        obj(vec![("type", s("image_url")), ("image_url", obj(vec![("url", s("x"))]))]),
    ]);
    assert_eq!(content_to_text(&content), "看这张图[图片]");
}

#[test]
fn jan_adapter_is_named_jan() {
    assert_eq!(JanAdapter.app_name(), "Jan");
}

#[test]
fn text_block_has_value_and_empty_annotations() {
    let b = text_block("abc");
    assert_eq!(
        b,
        obj(vec![
            ("type", s("text")),
            ("text", obj(vec![("value", s("abc")), ("annotations", Json::Array(vec![]))])),
        ])
    );
}

#[test]
fn multimodal_content_maps_to_text_and_image_blocks() {
    let content = MessageContent::Parts(vec![
        ContentPart::Text { text: "图".into() },
        ContentPart::ImageUrl { image_url: ImageUrl { url: "data:x".into(), detail: None } },
    ]);
    let blocks = content_blocks(&content);
    assert_eq!(blocks.as_array().unwrap().len(), 2);
    assert_eq!(at(&blocks, 1).get("type").unwrap().as_str(), Some("image_url"));
    assert_eq!(
        at(&blocks, 1).get("image_url").unwrap().get("url").unwrap().as_str(),
        Some("data:x")
    );
    assert_eq!(content_to_text(&blocks), "图[图片]");
}

#[test]
fn content_to_text_of_non_array_is_empty() {
    assert_eq!(content_to_text(&s("plain")), "");
}

#[test]
fn jsonl_records_skips_blank_lines() {
    let recs = jsonl_records("{\"a\":1}\n\n  \n{\"b\":2}\n");
    assert_eq!(recs, vec!["{\"a\":1}".to_string(), "{\"b\":2}".to_string()]);
}

#[test]
fn data_folder_setting_reads_string_field() {
    let settings = obj(vec![("data_folder", s("/home/me/jan"))]);
    assert_eq!(data_folder_setting(&settings), Some("/home/me/jan".to_string()));
    assert_eq!(data_folder_setting(&obj(vec![])), None);
}

#[test]
fn import_title_uses_title_or_default() {
    let mut c = Conversation::new();
    c.title = Some("我的会话".into());
    assert_eq!(import_title(&c), "我的会话");
    let c2 = Conversation::new();
    assert!(!import_title(&c2).is_empty());
}

#[test]
fn written_thread_reads_back() {
    let meta = thread_meta_json("t-1", "测试会话", 100);
    assert_eq!(meta.get("title").unwrap().as_str(), Some("测试会话"));
    assert_eq!(meta.get("id").unwrap().as_str(), Some("t-1"));
    assert_eq!(meta.get("object").unwrap().as_str(), Some("thread"));
    let m = ChatMessage::user("你好 Jan");
    let rec = message_record_json("m1", "t-1", &m, 100);
    assert_eq!(rec.get("role").unwrap().as_str(), Some("user"));
    assert_eq!(content_to_text(rec.get("content").unwrap()), "你好 Jan");
    let convo = conversation_from_thread(&meta, &vec![rec]);
    assert_eq!(convo.title.as_deref(), Some("测试会话"));
    assert_eq!(convo.messages.len(), 1);
    assert_eq!(convo.messages[0].role, Role::User);
    assert_eq!(convo.messages[0].text(), "你好 Jan");
}
