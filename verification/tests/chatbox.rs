use contextsend::chatbox::{
    build_import_script, content_length, enable_request, evaluate_request, content_parts_to_content, find_headers_end, http_body,
    import_confirmed, message_to_parts, metadata_to_json, page_target_ws, parse_metadata,
    parse_role, payload_message, response_complete, role_str, session_name,
    sessions_json_to_conversations, READ_SCRIPT,
};
use contextsend::json::{Json, JsonNumber};
use contextsend::{
    ChatMessage, ContentPart, Conversation, ImageUrl, MessageContent, MessageMetadata, Role,
    TokenUsage,
};

fn s(x: &str) -> Json {
    Json::Str(x.to_string())
}

fn n(x: u64) -> Json {
    Json::Number(JsonNumber::PosInt(x))
}

fn obj(es: Vec<(&str, Json)>) -> Json {
    Json::Object(es.into_iter().map(|(k, v)| (k.to_string(), v)).collect())
}

fn arr(v: Vec<Json>) -> Json {
    Json::Array(v)
}

fn text_part(t: &str) -> Json {
    obj(vec![("type", s("text")), ("text", s(t))])
}

#[test]
fn role_maps_to_chatbox_strings() {
    assert_eq!(role_str(Role::User), "user");
    assert_eq!(role_str(Role::Assistant), "assistant");
    assert_eq!(role_str(Role::System), "system");
    assert_eq!(role_str(Role::Tool), "tool");
}

#[test]
fn parse_role_maps_known_and_unknown() {
    assert_eq!(parse_role("system"), Role::System);
    assert_eq!(parse_role("assistant"), Role::Assistant);
    assert_eq!(parse_role("tool"), Role::Tool);
    assert_eq!(parse_role("user"), Role::User);
    assert_eq!(parse_role("anything-else"), Role::User);
}

#[test]
fn content_parts_text_only_yields_text_content() {
    let parts = arr(vec![
        text_part("你好"),
        obj(vec![("type", s("image")), ("storageKey", s("x"))]),
        text_part("世界"),
    ]);
    let content = content_parts_to_content(&parts);
    assert_eq!(content, MessageContent::Text("你好[图片]世界".into()));
    assert!(!content.has_image());
}

#[test]
fn content_parts_with_resolved_image_yields_multimodal() {
    let parts = arr(vec![
        text_part("看这张"),
        obj(vec![("type", s("image")), ("url", s("data:image/png;base64,AAAA"))]),
    ]);
    let content = content_parts_to_content(&parts);
    assert!(content.has_image());
    match content {
        MessageContent::Parts(p) => {
            assert_eq!(p.len(), 2);
            assert!(matches!(&p[0], ContentPart::Text { text } if text == "看这张"));
            assert!(
                matches!(&p[1], ContentPart::ImageUrl { image_url } if image_url.url == "data:image/png;base64,AAAA")
            );
        }
        _ => panic!("含图片应为 Parts 形态"),
    }
}

#[test]
fn content_parts_empty_is_empty_text() {
    assert_eq!(
        content_parts_to_content(&arr(vec![])),
        MessageContent::Text(String::new())
    );
    assert_eq!(
        content_parts_to_content(&Json::Null),
        MessageContent::Text(String::new())
    );
}

#[test]
fn message_to_parts_maps_text_and_image() {
    let text_msg = ChatMessage::user("你好");
    let parts = message_to_parts(&text_msg);
    assert_eq!(parts, vec![text_part("你好")]);

    let img_msg = ChatMessage {
        role: Role::User,
        content: MessageContent::Parts(vec![
            ContentPart::Text { text: "看图".into() },
            ContentPart::ImageUrl {
                image_url: ImageUrl {
                    url: "data:image/png;base64,BBBB".into(),
                    detail: None,
                },
            },
        ]),
        name: None,
        metadata: None,
    };
    let parts = message_to_parts(&img_msg);
    assert_eq!(
        parts,
        vec![
            text_part("看图"),
            obj(vec![("type", s("image")), ("url", s("data:image/png;base64,BBBB"))]),
        ]
    );
}

fn msg(role: &str, parts: Vec<Json>) -> Json {
    obj(vec![("role", s(role)), ("contentParts", arr(parts))])
}

#[test]
fn sessions_json_maps_to_conversations() {
    let value = arr(vec![obj(vec![
        ("id", s("s1")),
        ("name", s("天气对话")),
        (
            "messages",
            arr(vec![
                msg("user", vec![text_part("今天天气如何")]),
                msg("assistant", vec![text_part("晴")]),
            ]),
        ),
    ])]);
    let convos = sessions_json_to_conversations(&value);
    assert_eq!(convos.len(), 1);
    assert_eq!(convos[0].title.as_deref(), Some("天气对话"));
    assert_eq!(convos[0].messages.len(), 2);
    assert_eq!(convos[0].messages[0].role, Role::User);
    assert_eq!(convos[0].messages[0].text(), "今天天气如何");
    assert_eq!(convos[0].messages[1].role, Role::Assistant);
}

#[test]
fn sessions_json_non_array_yields_empty() {
    assert!(sessions_json_to_conversations(&obj(vec![])).is_empty());
    assert!(sessions_json_to_conversations(&Json::Null).is_empty());
}

#[test]
fn parse_metadata_extracts_model_usage_latency() {
    let meta = obj(vec![
        ("model", s("OpenAI API (gpt-4o)")),
        ("provider", s("openai")),
        ("firstTokenLatency", n(10319)),
        ("finishReason", s("stop")),
        (
            "usage",
            obj(vec![
                ("inputTokens", n(15)),
                ("outputTokens", n(415)),
                ("totalTokens", n(430)),
                ("reasoningTokens", n(0)),
                ("cachedInputTokens", n(0)),
            ]),
        ),
    ]);
    let md = parse_metadata(&meta).expect("应解析出元数据");
    assert_eq!(md.model.as_deref(), Some("OpenAI API (gpt-4o)"));
    assert_eq!(md.provider.as_deref(), Some("openai"));
    assert_eq!(md.first_token_latency_ms, Some(10319));
    assert_eq!(md.finish_reason.as_deref(), Some("stop"));
    let u = md.usage.expect("应有 usage");
    assert_eq!(u.input_tokens, Some(15));
    assert_eq!(u.output_tokens, Some(415));
    assert_eq!(u.total_tokens, Some(430));
}

#[test]
fn parse_metadata_blank_yields_none() {
    assert!(parse_metadata(&obj(vec![])).is_none());
    assert!(parse_metadata(&Json::Null).is_none());
    assert!(parse_metadata(&obj(vec![("model", s("  ")), ("usage", obj(vec![]))])).is_none());
}

#[test]
fn sessions_json_maps_metadata_and_backfills_model() {
    let value = arr(vec![obj(vec![
        ("id", s("s3")),
        ("name", s("带统计对话")),
        (
            "messages",
            arr(vec![
                msg("user", vec![text_part("问")]),
                obj(vec![
                    ("role", s("assistant")),
                    ("contentParts", arr(vec![text_part("答")])),
                    (
                        "meta",
                        obj(vec![
                            ("model", s("OpenAI API (gemini-3-flash-preview)")),
                            ("provider", s("openai")),
                            ("firstTokenLatency", n(5949)),
                            ("finishReason", s("stop")),
                            (
                                "usage",
                                obj(vec![("totalTokens", n(1792)), ("reasoningTokens", n(595))]),
                            ),
                        ]),
                    ),
                ]),
            ]),
        ),
    ])]);
    let convos = sessions_json_to_conversations(&value);
    assert_eq!(convos.len(), 1);
    assert_eq!(
        convos[0].model.as_deref(),
        Some("OpenAI API (gemini-3-flash-preview)")
    );
    assert!(convos[0].messages[0].metadata.is_none());
    let md = convos[0].messages[1].metadata.as_ref().expect("assistant 应有元数据");
    assert_eq!(md.first_token_latency_ms, Some(5949));
    assert_eq!(md.usage.as_ref().unwrap().total_tokens, Some(1792));
    assert_eq!(md.usage.as_ref().unwrap().reasoning_tokens, Some(595));
}

#[test]
fn metadata_json_roundtrips_through_parse() {
    let md = MessageMetadata {
        model: Some("OpenAI API (gpt-4o)".into()),
        provider: Some("openai".into()),
        usage: Some(TokenUsage {
            input_tokens: Some(15),
            output_tokens: Some(415),
            total_tokens: Some(430),
            reasoning_tokens: None,
            cached_input_tokens: None,
        }),
        first_token_latency_ms: Some(10319),
        finish_reason: Some("stop".into()),
    };
    let json = metadata_to_json(&md);
    assert!(json.get("usage").unwrap().get("reasoningTokens").is_none());
    let back = parse_metadata(&json).expect("应能解析回来");
    assert_eq!(back, md);
}

#[test]
fn read_script_carries_metadata() {
    assert!(READ_SCRIPT.contains("firstTokenLatency"));
    assert!(READ_SCRIPT.contains("aiProvider"));
    assert!(READ_SCRIPT.contains("usage"));
    assert!(READ_SCRIPT.contains("meta"));
}

#[test]
fn sessions_json_preserves_resolved_images() {
    let value = arr(vec![obj(vec![
        ("id", s("s2")),
        ("name", s("带图对话")),
        (
            "messages",
            arr(vec![msg(
                "user",
                vec![
                    text_part("这是啥"),
                    obj(vec![("type", s("image")), ("url", s("data:image/png;base64,CCCC"))]),
                ],
            )]),
        ),
    ])]);
    let convos = sessions_json_to_conversations(&value);
    assert_eq!(convos.len(), 1);
    let m = &convos[0].messages[0];
    assert!(m.content.has_image());
    assert_eq!(m.text(), "这是啥[图片]");
}

#[test]
fn read_script_scopes_to_session_prefix() {
    assert!(READ_SCRIPT.contains("chatboxstore"));
    assert!(READ_SCRIPT.contains("session:"));
    assert!(READ_SCRIPT.contains("contentParts"));
    assert!(READ_SCRIPT.contains("s.threads"));
    assert!(READ_SCRIPT.contains("threadName"));
    assert!(READ_SCRIPT.contains("getStoreBlob"));
    assert!(READ_SCRIPT.contains("storageKey"));
}

#[test]
fn multiple_threads_map_to_separate_conversations() {
    let value = arr(vec![
        obj(vec![
            ("id", s("sid:t1")),
            ("name", s("话题一")),
            ("messages", arr(vec![msg("user", vec![text_part("甲")])])),
        ]),
        obj(vec![
            ("id", s("sid:t2")),
            ("name", s("话题二")),
            ("messages", arr(vec![msg("user", vec![text_part("乙")])])),
        ]),
        obj(vec![
            ("id", s("sid")),
            ("name", s("当前话题")),
            ("messages", arr(vec![msg("user", vec![text_part("丙")])])),
        ]),
    ]);
    let convos = sessions_json_to_conversations(&value);
    assert_eq!(convos.len(), 3);
    let titles: Vec<_> = convos.iter().filter_map(|c| c.title.clone()).collect();
    assert_eq!(titles, vec!["话题一", "话题二", "当前话题"]);
}

#[test]
fn session_name_prefers_title() {
    let mut c = Conversation::new();
    c.title = Some("我的标题".into());
    c.messages.push(ChatMessage::user("正文很长很长"));
    assert_eq!(session_name(&c), "我的标题");
}

#[test]
fn session_name_falls_back_to_first_message_snippet() {
    let mut c = Conversation::new();
    c.messages
        .push(ChatMessage::user("这是第一条消息的内容用于做标题回退"));
    let name = session_name(&c);
    assert!(name.starts_with("这是第一条消息"));
    assert!(name.chars().count() <= 20);
}

#[test]
fn session_name_default_when_empty() {
    let c = Conversation::new();
    assert_eq!(session_name(&c), "来自 ContextSend");
}

#[test]
fn http_body_splits_on_blank_line() {
    let raw = "HTTP/1.1 200 OK\r\nContent-Type: application/json\r\n\r\n{\"a\":1}";
    assert_eq!(http_body(raw), Some("{\"a\":1}"));
}

#[test]
fn content_length_parsed_case_insensitive() {
    let head = "HTTP/1.1 200 OK\r\ncontent-length: 42\r\nContent-Type: application/json";
    assert_eq!(content_length(head), Some(42));
    let head2 = "HTTP/1.1 200 OK\r\nContent-Length:   7  ";
    assert_eq!(content_length(head2), Some(7));
    assert_eq!(content_length("HTTP/1.1 200 OK"), None);
}

#[test]
fn find_headers_end_locates_blank_line() {
    let buf = b"AB\r\n\r\nCD";
    assert_eq!(find_headers_end(buf), Some(2));
    assert_eq!(find_headers_end(b"no-blank-line"), None);
}

#[test]
fn import_script_embeds_payload_and_id() {
    let payload = r#"{"messages":[{"parts":[{"text":"你好","type":"text"},{"type":"image","url":"data:image/png;base64,DDDD"}],"role":"user"}],"name":"测试"}"#;
    let script = build_import_script("abc-123", payload);
    assert!(script.contains("chatboxstore"));
    assert!(script.contains("keyvaluepairs"));
    assert!(script.contains("chat-sessions-list"));
    assert!(script.contains("\"abc-123\""));
    assert!(script.contains("你好"));
    assert!(script.contains("data:image/png;base64,DDDD"));
    assert!(script.contains("JSON.stringify(session)"));
    assert!(script.contains("setStoreBlob"));
    assert!(script.contains("storageKey"));
    assert!(script.contains("picture:"));
    assert!(script.contains("applyMeta"));
    assert!(script.contains("aiProvider"));
    assert!(script.contains("tokensUsed"));
}

#[test]
fn import_payload_includes_metadata_for_assistant() {
    let mut convo = Conversation::new();
    convo.messages.push(ChatMessage::user("问"));
    convo.messages.push(ChatMessage {
        role: Role::Assistant,
        content: MessageContent::Text("答".into()),
        name: None,
        metadata: Some(MessageMetadata {
            model: Some("OpenAI API (gpt-4o)".into()),
            provider: Some("openai".into()),
            usage: Some(TokenUsage {
                total_tokens: Some(430),
                ..Default::default()
            }),
            first_token_latency_ms: Some(10319),
            finish_reason: Some("stop".into()),
        }),
    });
    let messages: Vec<Json> = convo.messages.iter().map(payload_message).collect();
    assert!(messages[0].get("meta").is_none());
    let meta = messages[1].get("meta").expect("assistant 应带 meta");
    assert_eq!(meta.get("model"), Some(&s("OpenAI API (gpt-4o)")));
    assert_eq!(meta.get("firstTokenLatency"), Some(&n(10319)));
    assert_eq!(meta.get("usage").unwrap().get("totalTokens"), Some(&n(430)));
}

#[test]
fn response_complete_waits_for_content_length() {
    assert!(!response_complete(b"HTTP/1.1 200 OK\r\nContent-Length: 4"));
    assert!(!response_complete(b"HTTP/1.1 200 OK\r\nContent-Length: 4\r\n\r\nab"));
    assert!(response_complete(b"HTTP/1.1 200 OK\r\nContent-Length: 4\r\n\r\nabcd"));
    assert!(response_complete(b"HTTP/1.1 200 OK\r\n\r\n"));
}

#[test]
fn page_target_picks_first_page() {
    let targets = arr(vec![
        obj(vec![("type", s("service_worker")), ("webSocketDebuggerUrl", s("ws://sw"))]),
        obj(vec![("type", s("page")), ("webSocketDebuggerUrl", s("ws://page1"))]),
        obj(vec![("type", s("page")), ("webSocketDebuggerUrl", s("ws://page2"))]),
    ]);
    assert_eq!(page_target_ws(&targets).unwrap(), "ws://page1");
    assert!(page_target_ws(&obj(vec![])).is_err());
    assert!(page_target_ws(&arr(vec![])).is_err());
}

#[test]
fn import_confirmation_needs_ok_true() {
    assert!(import_confirmed(&obj(vec![("ok", Json::Bool(true)), ("id", s("x"))])));
    assert!(!import_confirmed(&obj(vec![("ok", Json::Bool(false))])));
    assert!(!import_confirmed(&Json::Null));
}

#[test]
fn tool_call_and_reasoning_parts_become_text() {
    let parts = arr(vec![
        obj(vec![("type", s("reasoning")), ("text", s("想"))]),
        obj(vec![("type", s("tool-call")), ("name", s("x"))]),
        obj(vec![("type", s("unknown"))]),
    ]);
    assert_eq!(
        content_parts_to_content(&parts),
        MessageContent::Text("想[工具调用]".into())
    );
}

#[test]
fn import_script_quotes_session_id_as_json() {
    let script = build_import_script("a\"b\\c\nd\u{1}é", "{}");
    assert!(script.contains(r#""a\"b\\c\nd\u0001é""#));
}

#[test]
fn cdp_requests_carry_id_method_and_params() {
    let en = enable_request();
    assert_eq!(en.get("id").unwrap().as_u64(), Some(1));
    assert_eq!(en.get("method").unwrap().as_str(), Some("Runtime.enable"));
    let ev = evaluate_request("1+1", true);
    assert_eq!(ev.get("id").unwrap().as_u64(), Some(2));
    assert_eq!(ev.get("method").unwrap().as_str(), Some("Runtime.evaluate"));
    let p = ev.get("params").unwrap();
    assert_eq!(p.get("expression").unwrap().as_str(), Some("1+1"));
    assert_eq!(p.get("awaitPromise").unwrap().as_bool(), Some(true));
    assert_eq!(p.get("returnByValue").unwrap().as_bool(), Some(true));
}
