//! OpenAI compatible JSON: the request-body form of a conversation
//! (`{"title"?, "model"?, "messages": [..]}`, each message
//! `{"role", "content", "name"?, "metadata"?}`), written and read back.
//!
//! Import accepts a full request body (unknown members ignored) or a bare
//! messages array; export always writes the request body.

use vstd::prelude::*;
use vstd::string::*;

use crate::chatbox::{
    lemma_str_entry_get, lemma_usage_roundtrip, num_entry, opt_num_json, push_entry, push_opt_num, push_opt_str, str_entry, usage_json,
    usage_to_json,
};
use crate::error::CoreError;
use crate::json::{
    entries_get, entry_views, lemma_entries_get_concat, lemma_entries_get_single, str_eq, jview, jviews, lemma_array_view, lemma_object_view, view_get, Json, JsonNumber,
    JsonView,
};
use crate::message::{
    messages_view, opt_metadata_view, opt_view, parts_view, role_name, ChatMessage, ContentPart,
    ContentView, Conversation, ConversationView, ImageUrl, MessageContent, MessageMetadata,
    MessageView, MetadataView, PartView, Role, TokenUsage,
};

verus! {

broadcast use vstd::string::group_string_axioms;

// ---------------------------------------------------------------------------
// Writing
// ---------------------------------------------------------------------------

/// The `image_url` object: `url`, then `detail` when present.
pub open spec fn image_url_json(url: Seq<char>, detail: Option<Seq<char>>) -> JsonView {
    JsonView::Object(seq![("url"@, JsonView::Str(url))] + str_entry("detail"@, detail))
}

/// A content block: `{"type": "text", "text"}` or
/// `{"type": "image_url", "image_url": {..}}`.
pub open spec fn part_json(p: PartView) -> JsonView {
    match p {
        PartView::Text(t) => JsonView::Object(
            seq![("type"@, JsonView::Str("text"@)), ("text"@, JsonView::Str(t))],
        ),
        PartView::Image { url, detail } => JsonView::Object(
            seq![("type"@, JsonView::Str("image_url"@)), ("image_url"@, image_url_json(url, detail))],
        ),
    }
}

/// The `content` member: a string, or an array of blocks.
pub open spec fn content_json(c: ContentView) -> JsonView {
    match c {
        ContentView::Text(t) => JsonView::Str(t),
        ContentView::Parts(ps) => JsonView::Array(ps.map_values(|p: PartView| part_json(p))),
    }
}

/// The `usage` member when present.
pub open spec fn usage_member(u: Option<TokenUsage>) -> Seq<(Seq<char>, JsonView)> {
    match u {
        Some(u) => seq![("usage"@, usage_json(u))],
        None => Seq::empty(),
    }
}

/// The `metadata` object: present fields only, camelCase.
pub open spec fn metadata_json(m: MetadataView) -> JsonView {
    JsonView::Object(
        str_entry("model"@, m.model) + str_entry("provider"@, m.provider) + usage_member(m.usage)
            + num_entry("firstTokenLatencyMs"@, m.first_token_latency_ms) + str_entry(
            "finishReason"@,
            m.finish_reason,
        ),
    )
}

/// The `metadata` member when present.
pub open spec fn metadata_member(m: Option<MetadataView>) -> Seq<(Seq<char>, JsonView)> {
    match m {
        Some(m) => seq![("metadata"@, metadata_json(m))],
        None => Seq::empty(),
    }
}

/// One message.
pub open spec fn message_json(m: MessageView) -> JsonView {
    JsonView::Object(
        seq![("role"@, JsonView::Str(role_name(m.role))), ("content"@, content_json(m.content))]
            + str_entry("name"@, m.name) + metadata_member(m.metadata),
    )
}

/// The request body of a conversation.
pub open spec fn conversation_json(c: ConversationView) -> JsonView {
    JsonView::Object(
        str_entry("title"@, c.title) + str_entry("model"@, c.model) + seq![
            ("messages"@, JsonView::Array(c.messages.map_values(|m: MessageView| message_json(m)))),
        ],
    )
}

fn image_url_to_json(iu: &ImageUrl) -> (j: Json)
    ensures
        j@ == image_url_json(iu.url@, opt_view(iu.detail)),
{
    let mut es: Vec<(String, Json)> = Vec::new();
    push_entry(&mut es, "url", Json::Str(iu.url.clone()));
    push_opt_str(&mut es, "detail", &iu.detail);
    assert(entry_views(es@) =~= seq![("url"@, JsonView::Str(iu.url@))] + str_entry(
        "detail"@,
        opt_view(iu.detail),
    ));
    Json::object(es)
}

fn part_to_json(p: &ContentPart) -> (j: Json)
    ensures
        j@ == part_json(p@),
{
    let mut es: Vec<(String, Json)> = Vec::new();
    match p {
        ContentPart::Text { text } => {
            push_entry(&mut es, "type", Json::from_str("text"));
            push_entry(&mut es, "text", Json::Str(text.clone()));
            assert(entry_views(es@) =~= seq![
                ("type"@, JsonView::Str("text"@)),
                ("text"@, JsonView::Str(text@)),
            ]);
        },
        ContentPart::ImageUrl { image_url } => {
            push_entry(&mut es, "type", Json::from_str("image_url"));
            push_entry(&mut es, "image_url", image_url_to_json(image_url));
            assert(entry_views(es@) =~= seq![
                ("type"@, JsonView::Str("image_url"@)),
                ("image_url"@, image_url_json(image_url.url@, opt_view(image_url.detail))),
            ]);
        },
    }
    Json::object(es)
}

fn content_to_json(c: &MessageContent) -> (j: Json)
    ensures
        j@ == content_json(c@),
{
    match c {
        MessageContent::Text(t) => Json::Str(t.clone()),
        MessageContent::Parts(ps) => {
            let ghost want = parts_view(ps@).map_values(|p: PartView| part_json(p));
            let mut v: Vec<Json> = Vec::new();
            let mut i: usize = 0;
            while i < ps.len()
                invariant
                    i <= ps@.len(),
                    want == parts_view(ps@).map_values(|p: PartView| part_json(p)),
                    jviews(v@) =~= want.take(i as int),
                decreases ps@.len() - i,
            {
                let j = part_to_json(&ps[i]);
                let ghost before = jviews(v@);
                v.push(j);
                assert(jviews(v@) =~= before.push(want[i as int]));
                i = i + 1;
            }
            assert(want.take(ps@.len() as int) =~= want);
            proof {
                lemma_array_view(v);
            }
            Json::Array(v)
        },
    }
}

fn metadata_to_json(m: &MessageMetadata) -> (j: Json)
    ensures
        j@ == metadata_json(m@),
{
    let mut es: Vec<(String, Json)> = Vec::new();
    push_opt_str(&mut es, "model", &m.model);
    push_opt_str(&mut es, "provider", &m.provider);
    let ghost before = entry_views(es@);
    match &m.usage {
        Some(u) => push_entry(&mut es, "usage", usage_to_json(u)),
        None => {},
    }
    assert(entry_views(es@) =~= before + usage_member(m.usage));
    push_opt_num(&mut es, "firstTokenLatencyMs", m.first_token_latency_ms);
    push_opt_str(&mut es, "finishReason", &m.finish_reason);
    Json::object(es)
}

/// Writes one message.
pub fn message_to_json(m: &ChatMessage) -> (j: Json)
    ensures
        j@ == message_json(m@),
{
    let mut es: Vec<(String, Json)> = Vec::new();
    push_entry(&mut es, "role", Json::from_str(m.role.as_str()));
    push_entry(&mut es, "content", content_to_json(&m.content));
    push_opt_str(&mut es, "name", &m.name);
    let ghost before = entry_views(es@);
    match &m.metadata {
        Some(md) => push_entry(&mut es, "metadata", metadata_to_json(md)),
        None => {},
    }
    assert(entry_views(es@) =~= before + metadata_member(opt_metadata_view(m.metadata)));
    assert(entry_views(es@) =~= seq![
        ("role"@, JsonView::Str(role_name(m.role))),
        ("content"@, content_json(m.content@)),
    ] + str_entry("name"@, opt_view(m.name)) + metadata_member(opt_metadata_view(m.metadata)));
    Json::object(es)
}

/// Writes a conversation as an OpenAI request body.
pub fn conversation_to_json(c: &Conversation) -> (j: Json)
    ensures
        j@ == conversation_json(c@),
{
    let ghost ms = messages_view(c.messages@);
    let ghost want = ms.map_values(|m: MessageView| message_json(m));
    let mut v: Vec<Json> = Vec::new();
    let mut i: usize = 0;
    while i < c.messages.len()
        invariant
            i <= c.messages@.len(),
            ms == messages_view(c.messages@),
            want == ms.map_values(|m: MessageView| message_json(m)),
            jviews(v@) =~= want.take(i as int),
        decreases c.messages@.len() - i,
    {
        let j = message_to_json(&c.messages[i]);
        let ghost before = jviews(v@);
        v.push(j);
        assert(jviews(v@) =~= before.push(want[i as int]));
        i = i + 1;
    }
    assert(want.take(c.messages@.len() as int) =~= want);
    proof {
        lemma_array_view(v);
    }
    let mut es: Vec<(String, Json)> = Vec::new();
    push_opt_str(&mut es, "title", &c.title);
    push_opt_str(&mut es, "model", &c.model);
    push_entry(&mut es, "messages", Json::Array(v));
    assert(entry_views(es@) =~= str_entry("title"@, opt_view(c.title)) + str_entry(
        "model"@,
        opt_view(c.model),
    ) + seq![("messages"@, JsonView::Array(want))]);
    Json::object(es)
}


// ---------------------------------------------------------------------------
// Reading
// ---------------------------------------------------------------------------

/// An optional string member: missing or `null` is none, a string is that
/// string; anything else is refused (the outer `None`).
pub open spec fn dec_opt_str(f: Option<JsonView>) -> Option<Option<Seq<char>>> {
    match f {
        None => Some(None),
        Some(JsonView::Null) => Some(None),
        Some(JsonView::Str(s)) => Some(Some(s)),
        Some(_) => None,
    }
}

/// An optional count member: missing or `null` is none, a non-negative
/// integer is that number; anything else is refused.
pub open spec fn dec_opt_u64(f: Option<JsonView>) -> Option<Option<u64>> {
    match f {
        None => Some(None),
        Some(JsonView::Null) => Some(None),
        Some(JsonView::PosInt(n)) => Some(Some(n)),
        Some(_) => None,
    }
}

/// A role: one of the four lower-case names.
pub open spec fn dec_role(j: JsonView) -> Option<Role> {
    match j {
        JsonView::Str(s) => if s == "system"@ {
            Some(Role::System)
        } else if s == "user"@ {
            Some(Role::User)
        } else if s == "assistant"@ {
            Some(Role::Assistant)
        } else if s == "tool"@ {
            Some(Role::Tool)
        } else {
            None
        },
        _ => None,
    }
}

/// A content block, told apart by its `type`.
pub open spec fn dec_part(j: JsonView) -> Option<PartView> {
    match view_get(j, "type"@) {
        Some(JsonView::Str(t)) => if t == "text"@ {
            match view_get(j, "text"@) {
                Some(JsonView::Str(x)) => Some(PartView::Text(x)),
                _ => None,
            }
        } else if t == "image_url"@ {
            match view_get(j, "image_url"@) {
                Some(iu) => match (view_get(iu, "url"@), dec_opt_str(view_get(iu, "detail"@))) {
                    (Some(JsonView::Str(u)), Some(d)) => Some(PartView::Image { url: u, detail: d }),
                    _ => None,
                },
                None => None,
            }
        } else {
            None
        },
        _ => None,
    }
}

/// A list of blocks, refused when any block is.
pub open spec fn dec_parts(js: Seq<JsonView>) -> Option<Seq<PartView>> {
    if forall|i: int| 0 <= i < js.len() ==> (#[trigger] dec_part(js[i])) is Some {
        Some(Seq::new(js.len(), |i: int| dec_part(js[i])->Some_0))
    } else {
        None
    }
}

/// The `content` member: a string, or an array of blocks.
pub open spec fn dec_content(j: JsonView) -> Option<ContentView> {
    match j {
        JsonView::Str(s) => Some(ContentView::Text(s)),
        JsonView::Array(js) => match dec_parts(js) {
            Some(ps) => Some(ContentView::Parts(ps)),
            None => None,
        },
        _ => None,
    }
}

/// A `usage` object.
pub open spec fn dec_usage(j: JsonView) -> Option<TokenUsage> {
    if !(j is Object) {
        None
    } else {
        match (
            dec_opt_u64(view_get(j, "inputTokens"@)),
            dec_opt_u64(view_get(j, "outputTokens"@)),
            dec_opt_u64(view_get(j, "totalTokens"@)),
            dec_opt_u64(view_get(j, "reasoningTokens"@)),
            dec_opt_u64(view_get(j, "cachedInputTokens"@)),
        ) {
            (Some(a), Some(b), Some(c), Some(d), Some(e)) => Some(
                TokenUsage {
                    input_tokens: a,
                    output_tokens: b,
                    total_tokens: c,
                    reasoning_tokens: d,
                    cached_input_tokens: e,
                },
            ),
            _ => None,
        }
    }
}

/// An optional `usage` member.
pub open spec fn dec_opt_usage(f: Option<JsonView>) -> Option<Option<TokenUsage>> {
    match f {
        None => Some(None),
        Some(JsonView::Null) => Some(None),
        Some(u) => match dec_usage(u) {
            Some(x) => Some(Some(x)),
            None => None,
        },
    }
}

/// A `metadata` object.
pub open spec fn dec_metadata(j: JsonView) -> Option<MetadataView> {
    if !(j is Object) {
        None
    } else {
        match (
            dec_opt_str(view_get(j, "model"@)),
            dec_opt_str(view_get(j, "provider"@)),
            dec_opt_usage(view_get(j, "usage"@)),
            dec_opt_u64(view_get(j, "firstTokenLatencyMs"@)),
            dec_opt_str(view_get(j, "finishReason"@)),
        ) {
            (Some(a), Some(b), Some(c), Some(d), Some(e)) => Some(
                MetadataView {
                    model: a,
                    provider: b,
                    usage: c,
                    first_token_latency_ms: d,
                    finish_reason: e,
                },
            ),
            _ => None,
        }
    }
}

/// An optional `metadata` member.
pub open spec fn dec_opt_metadata(f: Option<JsonView>) -> Option<Option<MetadataView>> {
    match f {
        None => Some(None),
        Some(JsonView::Null) => Some(None),
        Some(m) => match dec_metadata(m) {
            Some(x) => Some(Some(x)),
            None => None,
        },
    }
}

/// One message: `role` and `content` required.
pub open spec fn dec_message(j: JsonView) -> Option<MessageView> {
    match (view_get(j, "role"@), view_get(j, "content"@)) {
        (Some(r), Some(c)) => match (
            dec_role(r),
            dec_content(c),
            dec_opt_str(view_get(j, "name"@)),
            dec_opt_metadata(view_get(j, "metadata"@)),
        ) {
            (Some(role), Some(content), Some(name), Some(metadata)) => Some(
                MessageView { role, content, name, metadata },
            ),
            _ => None,
        },
        _ => None,
    }
}

/// A list of messages, refused when any message is.
pub open spec fn dec_messages(js: Seq<JsonView>) -> Option<Seq<MessageView>> {
    if forall|i: int| 0 <= i < js.len() ==> (#[trigger] dec_message(js[i])) is Some {
        Some(Seq::new(js.len(), |i: int| dec_message(js[i])->Some_0))
    } else {
        None
    }
}

/// A request body: `messages` required, `title` and `model` optional.
pub open spec fn dec_conversation(j: JsonView) -> Option<ConversationView> {
    match view_get(j, "messages"@) {
        Some(JsonView::Array(ms)) => match (
            dec_opt_str(view_get(j, "title"@)),
            dec_opt_str(view_get(j, "model"@)),
            dec_messages(ms),
        ) {
            (Some(title), Some(model), Some(messages)) => Some(
                ConversationView { title, model, messages },
            ),
            _ => None,
        },
        _ => None,
    }
}

/// What importing a document gives: a request body, else a bare messages
/// array (no title, no model), else nothing.
pub open spec fn import_view(j: JsonView) -> Option<ConversationView> {
    match dec_conversation(j) {
        Some(c) => Some(c),
        None => match j {
            JsonView::Array(js) => match dec_messages(js) {
                Some(ms) => Some(ConversationView { title: None, model: None, messages: ms }),
                None => None,
            },
            _ => None,
        },
    }
}

/// The view of an optional optional string.
pub open spec fn oo_view(r: Option<Option<String>>) -> Option<Option<Seq<char>>> {
    match r {
        Some(o) => Some(opt_view(o)),
        None => None,
    }
}

fn opt_str_field(j: &Json, key: &str) -> (r: Option<Option<String>>)
    ensures
        oo_view(r) == dec_opt_str(view_get(j@, key@)),
{
    match j.get(key) {
        None => Some(None),
        Some(Json::Null) => Some(None),
        Some(Json::Str(s)) => Some(Some(s.clone())),
        Some(_) => None,
    }
}

fn opt_u64_field(j: &Json, key: &str) -> (r: Option<Option<u64>>)
    ensures
        r == dec_opt_u64(view_get(j@, key@)),
{
    match j.get(key) {
        None => Some(None),
        Some(Json::Null) => Some(None),
        Some(Json::Number(JsonNumber::PosInt(n))) => Some(Some(*n)),
        Some(_) => None,
    }
}

fn decode_role(j: &Json) -> (r: Option<Role>)
    ensures
        r == dec_role(j@),
{
    match j {
        Json::Str(s) => if str_eq(s.as_str(), "system") {
            Some(Role::System)
        } else if str_eq(s.as_str(), "user") {
            Some(Role::User)
        } else if str_eq(s.as_str(), "assistant") {
            Some(Role::Assistant)
        } else if str_eq(s.as_str(), "tool") {
            Some(Role::Tool)
        } else {
            None
        },
        _ => None,
    }
}

fn decode_part(j: &Json) -> (r: Option<ContentPart>)
    ensures
        match r {
            Some(p) => dec_part(j@) == Some(p@),
            None => dec_part(j@) is None,
        },
{
    let t = match j.get("type") {
        Some(Json::Str(t)) => t,
        _ => {
            return None;
        },
    };
    if str_eq(t.as_str(), "text") {
        match j.get("text") {
            Some(Json::Str(x)) => Some(ContentPart::Text { text: x.clone() }),
            _ => None,
        }
    } else if str_eq(t.as_str(), "image_url") {
        let iu = match j.get("image_url") {
            Some(x) => x,
            None => {
                return None;
            },
        };
        let url = match iu.get("url") {
            Some(Json::Str(u)) => u.clone(),
            _ => {
                return None;
            },
        };
        let detail = match opt_str_field(iu, "detail") {
            Some(d) => d,
            None => {
                return None;
            },
        };
        Some(ContentPart::ImageUrl { image_url: ImageUrl { url, detail } })
    } else {
        None
    }
}

fn decode_content(j: &Json) -> (r: Option<MessageContent>)
    ensures
        match r {
            Some(c) => dec_content(j@) == Some(c@),
            None => dec_content(j@) is None,
        },
{
    match j {
        Json::Str(s) => Some(MessageContent::Text(s.clone())),
        Json::Array(v) => {
            proof {
                lemma_array_view(*v);
            }
            let ghost js = jviews(v@);
            let mut out: Vec<ContentPart> = Vec::new();
            let mut i: usize = 0;
            while i < v.len()
                invariant
                    i <= v@.len(),
                    js == jviews(v@),
                    j@ == JsonView::Array(js),
                    out@.len() == i,
                    forall|k: int| 0 <= k < i ==> #[trigger] dec_part(js[k]) == Some(out@[k]@),
                decreases v@.len() - i,
            {
                match decode_part(&v[i]) {
                    Some(p) => {
                        out.push(p);
                    },
                    None => {
                        assert(!(dec_part(js[i as int]) is Some));
                        return None;
                    },
                }
                i = i + 1;
            }
            assert(parts_view(out@) =~= Seq::new(js.len(), |k: int| dec_part(js[k])->Some_0));
            Some(MessageContent::Parts(out))
        },
        _ => None,
    }
}

fn decode_usage(j: &Json) -> (r: Option<TokenUsage>)
    ensures
        r == dec_usage(j@),
{
    if !j.is_object() {
        return None;
    }
    let a = match opt_u64_field(j, "inputTokens") {
        Some(x) => x,
        None => {
            return None;
        },
    };
    let b = match opt_u64_field(j, "outputTokens") {
        Some(x) => x,
        None => {
            return None;
        },
    };
    let c = match opt_u64_field(j, "totalTokens") {
        Some(x) => x,
        None => {
            return None;
        },
    };
    let d = match opt_u64_field(j, "reasoningTokens") {
        Some(x) => x,
        None => {
            return None;
        },
    };
    let e = match opt_u64_field(j, "cachedInputTokens") {
        Some(x) => x,
        None => {
            return None;
        },
    };
    Some(
        TokenUsage {
            input_tokens: a,
            output_tokens: b,
            total_tokens: c,
            reasoning_tokens: d,
            cached_input_tokens: e,
        },
    )
}

fn decode_metadata(j: &Json) -> (r: Option<MessageMetadata>)
    ensures
        match r {
            Some(m) => dec_metadata(j@) == Some(m@),
            None => dec_metadata(j@) is None,
        },
{
    if !j.is_object() {
        return None;
    }
    let model = match opt_str_field(j, "model") {
        Some(x) => x,
        None => {
            return None;
        },
    };
    let provider = match opt_str_field(j, "provider") {
        Some(x) => x,
        None => {
            return None;
        },
    };
    let usage = match j.get("usage") {
        None => None,
        Some(Json::Null) => None,
        Some(u) => match decode_usage(u) {
            Some(x) => Some(x),
            None => {
                return None;
            },
        },
    };
    let latency = match opt_u64_field(j, "firstTokenLatencyMs") {
        Some(x) => x,
        None => {
            return None;
        },
    };
    let finish = match opt_str_field(j, "finishReason") {
        Some(x) => x,
        None => {
            return None;
        },
    };
    Some(
        MessageMetadata {
            model,
            provider,
            usage,
            first_token_latency_ms: latency,
            finish_reason: finish,
        },
    )
}

/// Reads one message; `None` when the document is not a message.
pub fn message_from_json(j: &Json) -> (r: Option<ChatMessage>)
    ensures
        match r {
            Some(m) => dec_message(j@) == Some(m@),
            None => dec_message(j@) is None,
        },
{
    let role = match j.get("role") {
        Some(x) => match decode_role(x) {
            Some(r) => r,
            None => {
                return None;
            },
        },
        None => {
            return None;
        },
    };
    let content = match j.get("content") {
        Some(x) => match decode_content(x) {
            Some(c) => c,
            None => {
                return None;
            },
        },
        None => {
            return None;
        },
    };
    let name = match opt_str_field(j, "name") {
        Some(x) => x,
        None => {
            return None;
        },
    };
    let metadata = match j.get("metadata") {
        None => None,
        Some(Json::Null) => None,
        Some(m) => match decode_metadata(m) {
            Some(x) => Some(x),
            None => {
                return None;
            },
        },
    };
    Some(ChatMessage { role, content, name, metadata })
}

fn decode_messages(v: &Vec<Json>) -> (r: Option<Vec<ChatMessage>>)
    ensures
        match r {
            Some(ms) => dec_messages(jviews(v@)) == Some(messages_view(ms@)),
            None => dec_messages(jviews(v@)) is None,
        },
{
    let ghost js = jviews(v@);
    let mut out: Vec<ChatMessage> = Vec::new();
    let mut i: usize = 0;
    while i < v.len()
        invariant
            i <= v@.len(),
            js == jviews(v@),
            out@.len() == i,
            forall|k: int| 0 <= k < i ==> #[trigger] dec_message(js[k]) == Some(out@[k]@),
        decreases v@.len() - i,
    {
        match message_from_json(&v[i]) {
            Some(m) => {
                out.push(m);
            },
            None => {
                assert(!(dec_message(js[i as int]) is Some));
                return None;
            },
        }
        i = i + 1;
    }
    assert(messages_view(out@) =~= Seq::new(js.len(), |k: int| dec_message(js[k])->Some_0));
    Some(out)
}

/// Reads a request body.
pub fn conversation_from_json(j: &Json) -> (r: Option<Conversation>)
    ensures
        match r {
            Some(c) => dec_conversation(j@) == Some(c@),
            None => dec_conversation(j@) is None,
        },
{
    let ms = match j.get("messages") {
        Some(Json::Array(v)) => {
            proof {
                lemma_array_view(*v);
            }
            v
        },
        _ => {
            return None;
        },
    };
    let title = match opt_str_field(j, "title") {
        Some(x) => x,
        None => {
            return None;
        },
    };
    let model = match opt_str_field(j, "model") {
        Some(x) => x,
        None => {
            return None;
        },
    };
    let messages = match decode_messages(ms) {
        Some(x) => x,
        None => {
            return None;
        },
    };
    Some(Conversation { title, model, messages })
}

/// Imports OpenAI compatible JSON: a request body (unknown members
/// ignored) or a bare messages array; anything else is refused.
pub fn import_openai(j: &Json) -> (r: Result<Conversation, CoreError>)
    ensures
        match import_view(j@) {
            Some(c) => r matches Ok(x) && x@ == c,
            None => r matches Err(CoreError::Serde(m)) && m@ == untagged_mismatch_text(),
        },
{
    match conversation_from_json(j) {
        Some(c) => Ok(c),
        None => match j {
            Json::Array(v) => {
                proof {
                    lemma_array_view(*v);
                }
                match decode_messages(v) {
                    Some(messages) => Ok(Conversation { title: None, model: None, messages }),
                    None => Err(untagged_mismatch()),
                }
            },
            _ => Err(untagged_mismatch()),
        },
    }
}

/// The message of a document that is neither a request body nor a
/// messages array.
pub open spec fn untagged_mismatch_text() -> Seq<char> {
    "data did not match any variant of untagged enum OpenAiImport"@
}

fn untagged_mismatch() -> (e: CoreError)
    ensures
        e matches CoreError::Serde(m) && m@ == untagged_mismatch_text(),
{
    CoreError::Serde(String::from_str("data did not match any variant of untagged enum OpenAiImport"))
}

/// Exports a conversation as an OpenAI request body.
pub fn export_openai(c: &Conversation) -> (j: Json)
    ensures
        j@ == conversation_json(c@),
{
    conversation_to_json(c)
}


// ---------------------------------------------------------------------------
// Reading back what was written
// ---------------------------------------------------------------------------

/// The first of two lookups that finds something.
pub open spec fn or_else(a: Option<JsonView>, b: Option<JsonView>) -> Option<JsonView> {
    match a {
        Some(v) => Some(v),
        None => b,
    }
}

proof fn lemma_get3(
    e1: Seq<(Seq<char>, JsonView)>,
    e2: Seq<(Seq<char>, JsonView)>,
    e3: Seq<(Seq<char>, JsonView)>,
    k: Seq<char>,
)
    ensures
        entries_get(e1 + e2 + e3, k) == or_else(
            entries_get(e1, k),
            or_else(entries_get(e2, k), entries_get(e3, k)),
        ),
{
    lemma_entries_get_concat(e1 + e2, e3, k);
    lemma_entries_get_concat(e1, e2, k);
}

proof fn lemma_get5(
    e1: Seq<(Seq<char>, JsonView)>,
    e2: Seq<(Seq<char>, JsonView)>,
    e3: Seq<(Seq<char>, JsonView)>,
    e4: Seq<(Seq<char>, JsonView)>,
    e5: Seq<(Seq<char>, JsonView)>,
    k: Seq<char>,
)
    ensures
        entries_get(e1 + e2 + e3 + e4 + e5, k) == or_else(
            entries_get(e1, k),
            or_else(
                entries_get(e2, k),
                or_else(entries_get(e3, k), or_else(entries_get(e4, k), entries_get(e5, k))),
            ),
        ),
{
    lemma_entries_get_concat(e1 + e2 + e3 + e4, e5, k);
    lemma_entries_get_concat(e1 + e2 + e3, e4, k);
    lemma_entries_get_concat(e1 + e2, e3, k);
    lemma_entries_get_concat(e1, e2, k);
}

/// Looking a key up in an optional one-entry piece.
proof fn lemma_member_get(key: Seq<char>, v: Option<JsonView>, k: Seq<char>)
    ensures
        entries_get(member(key, v), k) == (if key == k {
            v
        } else {
            None
        }),
{
    match v {
        Some(x) => lemma_entries_get_single(key, x, k),
        None => {},
    }
}

/// A member when the value is present.
pub open spec fn member(key: Seq<char>, v: Option<JsonView>) -> Seq<(Seq<char>, JsonView)> {
    match v {
        Some(x) => seq![(key, x)],
        None => Seq::empty(),
    }
}

/// The optional string of a present-or-absent string member.
pub open spec fn str_json(o: Option<Seq<char>>) -> Option<JsonView> {
    match o {
        Some(s) => Some(JsonView::Str(s)),
        None => None,
    }
}

proof fn lemma_pieces_are_members(m: MetadataView, n: Option<Seq<char>>, md: Option<MetadataView>)
    ensures
        str_entry("model"@, m.model) == member("model"@, str_json(m.model)),
        str_entry("provider"@, m.provider) == member("provider"@, str_json(m.provider)),
        usage_member(m.usage) == member(
            "usage"@,
            match m.usage {
                Some(u) => Some(usage_json(u)),
                None => None,
            },
        ),
        num_entry("firstTokenLatencyMs"@, m.first_token_latency_ms) == member(
            "firstTokenLatencyMs"@,
            opt_num_json(m.first_token_latency_ms),
        ),
        str_entry("finishReason"@, m.finish_reason) == member(
            "finishReason"@,
            str_json(m.finish_reason),
        ),
        str_entry("name"@, n) == member("name"@, str_json(n)),
        metadata_member(md) == member(
            "metadata"@,
            match md {
                Some(x) => Some(metadata_json(x)),
                None => None,
            },
        ),
{
}

proof fn lemma_part_roundtrip(p: PartView)
    ensures
        dec_part(part_json(p)) == Some(p),
{
    reveal_strlit("type");
    assert("type"@.len() == 4);
    reveal_strlit("text");
    assert("text"@.len() == 4);
    reveal_strlit("image_url");
    assert("image_url"@.len() == 9);
    reveal_strlit("url");
    assert("url"@.len() == 3);
    reveal_strlit("detail");
    assert("detail"@.len() == 6);
    assert("type"@[1] != "text"@[1]);
    assert("type"@ != "image_url"@);
    assert("text"@ != "image_url"@);
    assert("url"@ != "detail"@);
    reveal_with_fuel(entries_get, 3);
    match p {
        PartView::Text(t) => {
            let es = seq![("type"@, JsonView::Str("text"@)), ("text"@, JsonView::Str(t))];
            assert(es.drop_first() =~= seq![("text"@, JsonView::Str(t))]);
            assert(entries_get(es, "text"@) == Some(JsonView::Str(t)));
        },
        PartView::Image { url, detail } => {
            let iu = image_url_json(url, detail);
            let es = seq![("type"@, JsonView::Str("image_url"@)), ("image_url"@, iu)];
            assert(es.drop_first() =~= seq![("image_url"@, iu)]);
            assert(entries_get(es, "image_url"@) == Some(iu));
            let ies = seq![("url"@, JsonView::Str(url))] + str_entry("detail"@, detail);
            assert(ies[0] == ("url"@, JsonView::Str(url)));
            lemma_entries_get_concat(seq![("url"@, JsonView::Str(url))], str_entry("detail"@, detail), "detail"@);
            lemma_entries_get_single("url"@, JsonView::Str(url), "detail"@);
            lemma_str_entry_get("detail"@, detail, "detail"@);
        },
    }
}

proof fn lemma_content_roundtrip(c: ContentView)
    ensures
        dec_content(content_json(c)) == Some(c),
{
    match c {
        ContentView::Text(_) => {},
        ContentView::Parts(ps) => {
            let js = ps.map_values(|p: PartView| part_json(p));
            assert forall|i: int| 0 <= i < js.len() implies (#[trigger] dec_part(js[i])) == Some(ps[i]) by {
                lemma_part_roundtrip(ps[i]);
            }
            assert(Seq::new(js.len(), |i: int| dec_part(js[i])->Some_0) =~= ps);
        },
    }
}

proof fn lemma_usage_decodes(u: TokenUsage)
    ensures
        dec_usage(usage_json(u)) == Some(u),
{
    lemma_usage_roundtrip(u);
}

proof fn lemma_metadata_decodes(m: MetadataView)
    ensures
        dec_metadata(metadata_json(m)) == Some(m),
{
    reveal_strlit("model");
    assert("model"@.len() == 5);
    reveal_strlit("provider");
    assert("provider"@.len() == 8);
    reveal_strlit("usage");
    assert("usage"@.len() == 5);
    reveal_strlit("firstTokenLatencyMs");
    assert("firstTokenLatencyMs"@.len() == 19);
    reveal_strlit("finishReason");
    assert("finishReason"@.len() == 12);
    assert("model"@[0] != "usage"@[0]);
    assert("model"@ != "provider"@);
    assert("model"@ != "firstTokenLatencyMs"@);
    assert("model"@ != "finishReason"@);
    assert("provider"@ != "usage"@);
    assert("provider"@ != "firstTokenLatencyMs"@);
    assert("provider"@ != "finishReason"@);
    assert("usage"@ != "firstTokenLatencyMs"@);
    assert("usage"@ != "finishReason"@);
    assert("firstTokenLatencyMs"@ != "finishReason"@);
    lemma_pieces_are_members(m, None, None);
    let uj = match m.usage {
        Some(u) => Some(usage_json(u)),
        None => None,
    };
    let e1 = member("model"@, str_json(m.model));
    let e2 = member("provider"@, str_json(m.provider));
    let e3 = member("usage"@, uj);
    let e4 = member("firstTokenLatencyMs"@, opt_num_json(m.first_token_latency_ms));
    let e5 = member("finishReason"@, str_json(m.finish_reason));
    let keys = seq!["model"@, "provider"@, "usage"@, "firstTokenLatencyMs"@, "finishReason"@];
    assert forall|i: int| 0 <= i < 5 implies entries_get(e1 + e2 + e3 + e4 + e5, #[trigger] keys[i])
        == or_else(
        entries_get(e1, keys[i]),
        or_else(
            entries_get(e2, keys[i]),
            or_else(entries_get(e3, keys[i]), or_else(entries_get(e4, keys[i]), entries_get(e5, keys[i]))),
        ),
    ) by {
        lemma_get5(e1, e2, e3, e4, e5, keys[i]);
    }
    assert forall|i: int| 0 <= i < 5 implies {
        &&& entries_get(e1, #[trigger] keys[i]) == (if i == 0 { str_json(m.model) } else { None })
        &&& entries_get(e2, keys[i]) == (if i == 1 { str_json(m.provider) } else { None })
        &&& entries_get(e3, keys[i]) == (if i == 2 { uj } else { None })
        &&& entries_get(e4, keys[i]) == (if i == 3 { opt_num_json(m.first_token_latency_ms) } else { None })
        &&& entries_get(e5, keys[i]) == (if i == 4 { str_json(m.finish_reason) } else { None })
    } by {
        lemma_member_get("model"@, str_json(m.model), keys[i]);
        lemma_member_get("provider"@, str_json(m.provider), keys[i]);
        lemma_member_get("usage"@, uj, keys[i]);
        lemma_member_get("firstTokenLatencyMs"@, opt_num_json(m.first_token_latency_ms), keys[i]);
        lemma_member_get("finishReason"@, str_json(m.finish_reason), keys[i]);
    }
    assert(keys[0] == "model"@);
    assert(keys[1] == "provider"@);
    assert(keys[2] == "usage"@);
    assert(keys[3] == "firstTokenLatencyMs"@);
    assert(keys[4] == "finishReason"@);
    match m.usage {
        Some(u) => lemma_usage_decodes(u),
        None => {},
    }
}

proof fn lemma_message_decodes(m: MessageView)
    ensures
        dec_message(message_json(m)) == Some(m),
{
    reveal_strlit("role");
    assert("role"@.len() == 4);
    reveal_strlit("content");
    assert("content"@.len() == 7);
    reveal_strlit("name");
    assert("name"@.len() == 4);
    reveal_strlit("metadata");
    assert("metadata"@.len() == 8);
    assert("role"@[0] != "name"@[0]);
    assert("role"@ != "content"@);
    assert("role"@ != "metadata"@);
    assert("content"@ != "name"@);
    assert("content"@ != "metadata"@);
    assert("name"@ != "metadata"@);
    lemma_pieces_are_members(
        MetadataView { model: None, provider: None, usage: None, first_token_latency_ms: None, finish_reason: None },
        m.name,
        m.metadata,
    );
    let mj = match m.metadata {
        Some(x) => Some(metadata_json(x)),
        None => None,
    };
    let e1 = member("role"@, Some(JsonView::Str(role_name(m.role))));
    let e2 = member("content"@, Some(content_json(m.content)));
    let e3 = member("name"@, str_json(m.name));
    let e4 = member("metadata"@, mj);
    assert(seq![("role"@, JsonView::Str(role_name(m.role))), ("content"@, content_json(m.content))]
        =~= e1 + e2);
    let keys = seq!["role"@, "content"@, "name"@, "metadata"@];
    assert forall|i: int| 0 <= i < 4 implies entries_get(e1 + e2 + e3 + e4, #[trigger] keys[i])
        == or_else(entries_get(e1, keys[i]), or_else(entries_get(e2, keys[i]), or_else(entries_get(e3, keys[i]), entries_get(e4, keys[i])))) by {
        lemma_entries_get_concat(e1 + e2 + e3, e4, keys[i]);
        lemma_get3(e1, e2, e3, keys[i]);
    }
    assert forall|i: int| 0 <= i < 4 implies {
        &&& entries_get(e1, #[trigger] keys[i]) == (if i == 0 { Some(JsonView::Str(role_name(m.role))) } else { None })
        &&& entries_get(e2, keys[i]) == (if i == 1 { Some(content_json(m.content)) } else { None })
        &&& entries_get(e3, keys[i]) == (if i == 2 { str_json(m.name) } else { None })
        &&& entries_get(e4, keys[i]) == (if i == 3 { mj } else { None })
    } by {
        lemma_member_get("role"@, Some(JsonView::Str(role_name(m.role))), keys[i]);
        lemma_member_get("content"@, Some(content_json(m.content)), keys[i]);
        lemma_member_get("name"@, str_json(m.name), keys[i]);
        lemma_member_get("metadata"@, mj, keys[i]);
    }
    assert(keys[0] == "role"@);
    assert(keys[1] == "content"@);
    assert(keys[2] == "name"@);
    assert(keys[3] == "metadata"@);
    assert(message_json(m) == JsonView::Object(e1 + e2 + e3 + e4));
    reveal_strlit("system");
    assert("system"@.len() == 6);
    reveal_strlit("user");
    assert("user"@.len() == 4);
    reveal_strlit("assistant");
    assert("assistant"@.len() == 9);
    reveal_strlit("tool");
    assert("tool"@.len() == 4);
    assert("system"@ != "user"@);
    assert("system"@ != "assistant"@);
    assert("system"@ != "tool"@);
    assert("user"@ != "assistant"@);
    assert("user"@[0] != "tool"@[0]);
    assert("assistant"@ != "tool"@);
    lemma_content_roundtrip(m.content);
    match m.metadata {
        Some(x) => lemma_metadata_decodes(x),
        None => {},
    }
}

proof fn lemma_messages_decode(ms: Seq<MessageView>)
    ensures
        dec_messages(ms.map_values(|m: MessageView| message_json(m))) == Some(ms),
{
    let js = ms.map_values(|m: MessageView| message_json(m));
    assert forall|i: int| 0 <= i < js.len() implies (#[trigger] dec_message(js[i])) == Some(ms[i]) by {
        lemma_message_decodes(ms[i]);
    }
    assert(Seq::new(js.len(), |i: int| dec_message(js[i])->Some_0) =~= ms);
}

/// Exporting a conversation and importing the result gives the same
/// conversation back, for every conversation; a bare array of written
/// messages imports as those messages, with no title and no model.
pub proof fn lemma_export_import_roundtrip(c: ConversationView, ms: Seq<MessageView>)
    ensures
        dec_conversation(conversation_json(c)) == Some(c),
        import_view(conversation_json(c)) == Some(c),
        import_view(JsonView::Array(ms.map_values(|m: MessageView| message_json(m)))) == Some(
            ConversationView { title: None, model: None, messages: ms },
        ),
{
    reveal_strlit("title");
    assert("title"@.len() == 5);
    reveal_strlit("model");
    assert("model"@.len() == 5);
    reveal_strlit("messages");
    assert("messages"@.len() == 8);
    assert("title"@[0] != "model"@[0]);
    assert("title"@ != "messages"@);
    assert("model"@ != "messages"@);
    let arr = JsonView::Array(c.messages.map_values(|m: MessageView| message_json(m)));
    let e1 = member("title"@, str_json(c.title));
    let e2 = member("model"@, str_json(c.model));
    let e3 = member("messages"@, Some(arr));
    assert(str_entry("title"@, c.title) == e1);
    assert(str_entry("model"@, c.model) == e2);
    assert(conversation_json(c) == JsonView::Object(e1 + e2 + e3));
    lemma_get3(e1, e2, e3, "title"@);
    lemma_get3(e1, e2, e3, "model"@);
    lemma_get3(e1, e2, e3, "messages"@);
    lemma_member_get("title"@, str_json(c.title), "title"@);
    lemma_member_get("model"@, str_json(c.model), "title"@);
    lemma_member_get("messages"@, Some(arr), "title"@);
    lemma_member_get("title"@, str_json(c.title), "model"@);
    lemma_member_get("model"@, str_json(c.model), "model"@);
    lemma_member_get("messages"@, Some(arr), "model"@);
    lemma_member_get("title"@, str_json(c.title), "messages"@);
    lemma_member_get("model"@, str_json(c.model), "messages"@);
    lemma_member_get("messages"@, Some(arr), "messages"@);
    lemma_messages_decode(c.messages);
    lemma_messages_decode(ms);
}

} // verus!
