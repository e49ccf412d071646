//! Jan adapter: the documents of Jan's file-system conversation store.
//!
//! Jan keeps each conversation (thread) as a folder
//! `<data_folder>/threads/<thread_id>/` holding `thread.json` (title and
//! times) and `messages.jsonl` (one message per line, OpenAI-style content
//! blocks). The application does the file work; this module reads and
//! builds the documents.

use vstd::prelude::*;
use vstd::string::*;

use crate::chatbox::{default_session_name, push_entry};
use crate::json::{
    entries_get, lemma_entries_get_concat, lemma_entries_get_single, view_get_u64,
    entry_views, jview, jviews, str_eq, view_get, view_get_str, Json, JsonNumber, JsonView,
};
use crate::message::{
    content_text, messages_view, parts_text, part_text, opt_view, parts_view, plain_message, role_name, ChatMessage,
    ContentPart, ContentView, Conversation, ConversationView, MessageContent, MessageView, PartView,
    Role,
};
use crate::text::{
    char_lines_view, chars_of, image_placeholder, image_placeholder_view, lines_view, split_lines,
    string_from_chars, trim_chars, trim_str, trim_view,
};

verus! {

broadcast use vstd::string::group_string_axioms;

/// The Jan adapter.
pub struct JanAdapter;

impl JanAdapter {
    /// The application name.
    pub fn app_name(&self) -> (s: &'static str)
        ensures
            s@ == "Jan"@,
    {
        "Jan"
    }
}

/// The wire name of a role.
pub fn role_str(role: Role) -> (s: &'static str)
    ensures
        s@ == role_name(role),
{
    role.as_str()
}

/// Jan's text block: `{"type": "text", "text": {"value": v, "annotations": []}}`.
pub open spec fn text_block_view(v: Seq<char>) -> JsonView {
    JsonView::Object(
        seq![
            ("type"@, JsonView::Str("text"@)),
            (
                "text"@,
                JsonView::Object(
                    seq![("value"@, JsonView::Str(v)), ("annotations"@, JsonView::Array(Seq::empty()))],
                ),
            ),
        ],
    )
}

/// Jan's image block: `{"type": "image_url", "image_url": {"url": u}}`.
pub open spec fn image_block_view(u: Seq<char>) -> JsonView {
    JsonView::Object(
        seq![
            ("type"@, JsonView::Str("image_url"@)),
            ("image_url"@, JsonView::Object(seq![("url"@, JsonView::Str(u))])),
        ],
    )
}

/// The Jan block of one content block.
pub open spec fn jan_block(p: PartView) -> JsonView {
    match p {
        PartView::Text(t) => text_block_view(t),
        PartView::Image { url, .. } => image_block_view(url),
    }
}

/// The `content` array of a Jan message; never empty (an empty text block
/// stands in for no content).
pub open spec fn content_blocks_view(c: ContentView) -> JsonView {
    let bs = match c {
        ContentView::Text(s) => seq![text_block_view(s)],
        ContentView::Parts(ps) => ps.map_values(|p: PartView| jan_block(p)),
    };
    JsonView::Array(
        if bs.len() == 0 {
            seq![text_block_view(Seq::empty())]
        } else {
            bs
        },
    )
}

fn empty_array() -> (j: Json)
    ensures
        j@ == JsonView::Array(Seq::empty()),
{
    let v: Vec<Json> = Vec::new();
    assert(jviews(v@) =~= Seq::<JsonView>::empty());
    Json::array(v)
}

/// Builds Jan's text block.
pub fn text_block(value: &str) -> (j: Json)
    ensures
        j@ == text_block_view(value@),
{
    let mut inner: Vec<(String, Json)> = Vec::new();
    push_entry(&mut inner, "value", Json::from_str(value));
    push_entry(&mut inner, "annotations", empty_array());
    assert(entry_views(inner@) =~= seq![
        ("value"@, JsonView::Str(value@)),
        ("annotations"@, JsonView::Array(Seq::empty())),
    ]);
    let mut es: Vec<(String, Json)> = Vec::new();
    push_entry(&mut es, "type", Json::from_str("text"));
    push_entry(&mut es, "text", Json::object(inner));
    assert(entry_views(es@) =~= seq![
        ("type"@, JsonView::Str("text"@)),
        (
            "text"@,
            JsonView::Object(
                seq![("value"@, JsonView::Str(value@)), ("annotations"@, JsonView::Array(Seq::empty()))],
            ),
        ),
    ]);
    Json::object(es)
}

fn image_block(url: &str) -> (j: Json)
    ensures
        j@ == image_block_view(url@),
{
    let mut inner: Vec<(String, Json)> = Vec::new();
    push_entry(&mut inner, "url", Json::from_str(url));
    assert(entry_views(inner@) =~= seq![("url"@, JsonView::Str(url@))]);
    let mut es: Vec<(String, Json)> = Vec::new();
    push_entry(&mut es, "type", Json::from_str("image_url"));
    push_entry(&mut es, "image_url", Json::object(inner));
    assert(entry_views(es@) =~= seq![
        ("type"@, JsonView::Str("image_url"@)),
        ("image_url"@, JsonView::Object(seq![("url"@, JsonView::Str(url@))])),
    ]);
    Json::object(es)
}

/// Maps message content to Jan's `content` array.
pub fn content_blocks(content: &MessageContent) -> (j: Json)
    ensures
        j@ == content_blocks_view(content@),
{
    let mut blocks: Vec<Json> = Vec::new();
    match content {
        MessageContent::Text(s) => {
            blocks.push(text_block(s.as_str()));
            assert(jviews(blocks@) =~= seq![text_block_view(s@)]);
        },
        MessageContent::Parts(parts) => {
            let mut i: usize = 0;
            while i < parts.len()
                invariant
                    i <= parts@.len(),
                    jviews(blocks@) =~= parts_view(parts@).take(i as int).map_values(
                        |p: PartView| jan_block(p),
                    ),
                decreases parts@.len() - i,
            {
                let b = match &parts[i] {
                    ContentPart::Text { text } => text_block(text.as_str()),
                    ContentPart::ImageUrl { image_url } => image_block(image_url.url.as_str()),
                };
                assert(parts_view(parts@)[i as int] == parts@[i as int]@);
                let ghost before = jviews(blocks@);
                blocks.push(b);
                assert(jviews(blocks@) =~= before.push(jan_block(parts_view(parts@)[i as int])));
                i = i + 1;
                assert(parts_view(parts@).take(i as int).map_values(|p: PartView| jan_block(p))
                    =~= before.push(jan_block(parts_view(parts@)[i - 1])));
            }
            assert(parts_view(parts@).take(parts@.len() as int) =~= parts_view(parts@));
        },
    }
    if blocks.len() == 0 {
        proof {
            reveal_strlit("");
            assert(""@ =~= Seq::<char>::empty());
        }
        let tb = text_block("");
        assert(tb@ == text_block_view(Seq::empty()));
        blocks.push(tb);
        assert(jviews(blocks@) =~= seq![text_block_view(Seq::empty())]);
    }
    Json::array(blocks)
}

/// The `text.value` member of a block.
pub open spec fn block_text_value(b: JsonView) -> Option<Seq<char>> {
    match view_get(b, "text"@) {
        Some(t) => view_get_str(t, "value"@),
        None => None,
    }
}

/// The text one Jan block contributes: text and reasoning blocks their
/// value, image blocks the placeholder, others nothing.
pub open spec fn jan_block_text(b: JsonView) -> Seq<char> {
    let ty = view_get_str(b, "type"@);
    if ty == Some("text"@) || ty == Some("reasoning"@) {
        match block_text_value(b) {
            Some(v) => v,
            None => Seq::empty(),
        }
    } else if ty == Some("image_url"@) {
        image_placeholder_view()
    } else {
        Seq::empty()
    }
}

/// The concatenated text of a list of blocks.
pub open spec fn jan_blocks_text(bs: Seq<JsonView>) -> Seq<char>
    decreases bs.len(),
{
    if bs.len() == 0 {
        Seq::empty()
    } else {
        jan_blocks_text(bs.drop_last()) + jan_block_text(bs.last())
    }
}

/// The text of a Jan `content` value; a non-array has none.
pub open spec fn content_to_text_view(c: JsonView) -> Seq<char> {
    match c {
        JsonView::Array(bs) => jan_blocks_text(bs),
        _ => Seq::empty(),
    }
}

/// Recovers plain text from Jan's `content` array.
pub fn content_to_text(content: &Json) -> (s: String)
    ensures
        s@ == content_to_text_view(content@),
{
    let arr = match content.as_array() {
        Some(a) => a,
        None => {
            return String::new();
        },
    };
    let ghost bs = jviews(arr@);
    let mut out = String::new();
    let mut i: usize = 0;
    while i < arr.len()
        invariant
            i <= arr@.len(),
            bs == jviews(arr@),
            out@ == jan_blocks_text(bs.take(i as int)),
        decreases arr@.len() - i,
    {
        let block = &arr[i];
        assert(bs.take(i + 1).drop_last() =~= bs.take(i as int));
        assert(bs.take(i + 1).last() == block@);
        let ty = match block.get("type") {
            Some(t) => t.as_str(),
            None => None,
        };
        let is_text = match ty {
            Some(t) => str_eq(t, "text") || str_eq(t, "reasoning"),
            None => false,
        };
        let is_image = match ty {
            Some(t) => str_eq(t, "image_url"),
            None => false,
        };
        if is_text {
            let v = match block.get("text") {
                Some(t) => match t.get("value") {
                    Some(v) => v.as_str(),
                    None => None,
                },
                None => None,
            };
            if let Some(v) = v {
                out.append(v);
            }
        } else if is_image {
            let ph = image_placeholder();
            out.append(ph.as_str());
        }
        i = i + 1;
    }
    assert(bs.take(arr@.len() as int) =~= bs);
    out
}

/// The role of a Jan message record: `system`, `assistant` or `tool`, and
/// `user` for anything else (missing included).
pub open spec fn jan_role_view(m: JsonView) -> Role {
    let r = view_get_str(m, "role"@);
    if r == Some("system"@) {
        Role::System
    } else if r == Some("assistant"@) {
        Role::Assistant
    } else if r == Some("tool"@) {
        Role::Tool
    } else {
        Role::User
    }
}

/// A Jan message record as a plain-text message.
pub open spec fn jan_message_view(m: JsonView) -> MessageView {
    plain_message(
        jan_role_view(m),
        match view_get(m, "content"@) {
            Some(c) => content_to_text_view(c),
            None => Seq::empty(),
        },
    )
}

/// Reads one message record of `messages.jsonl`.
pub fn jan_message(m: &Json) -> (r: ChatMessage)
    ensures
        r@ == jan_message_view(m@),
{
    let role_text = match m.get("role") {
        Some(r) => r.as_str(),
        None => None,
    };
    let role = match role_text {
        Some(r) => if str_eq(r, "system") {
            Role::System
        } else if str_eq(r, "assistant") {
            Role::Assistant
        } else if str_eq(r, "tool") {
            Role::Tool
        } else {
            Role::User
        },
        None => Role::User,
    };
    let text = match m.get("content") {
        Some(c) => content_to_text(c),
        None => String::new(),
    };
    ChatMessage::new(role, text)
}

/// A thread folder as a conversation: the `title` of `thread.json` (when a
/// string) and one plain-text message per record.
pub open spec fn jan_thread_view(meta: JsonView, records: Seq<JsonView>) -> ConversationView {
    ConversationView {
        title: view_get_str(meta, "title"@),
        model: None,
        messages: records.map_values(|m: JsonView| jan_message_view(m)),
    }
}

/// Builds the conversation of one thread from its `thread.json` document
/// and the parsed records of its `messages.jsonl`.
pub fn conversation_from_thread(meta: &Json, records: &Vec<Json>) -> (c: Conversation)
    ensures
        c@ == jan_thread_view(meta@, jviews(records@)),
{
    let mut convo = Conversation::new();
    convo.title = match meta.get("title") {
        Some(t) => match t.as_str() {
            Some(t) => Some(String::from_str(t)),
            None => None,
        },
        None => None,
    };
    let ghost rs = jviews(records@);
    let mut i: usize = 0;
    while i < records.len()
        invariant
            i <= records@.len(),
            rs == jviews(records@),
            opt_view(convo.title) == view_get_str(meta@, "title"@),
            convo.model is None,
            messages_view(convo.messages@) =~= rs.take(i as int).map_values(
                |m: JsonView| jan_message_view(m),
            ),
        decreases records@.len() - i,
    {
        let msg = jan_message(&records[i]);
        let ghost before = messages_view(convo.messages@);
        convo.messages.push(msg);
        assert(messages_view(convo.messages@) =~= before.push(jan_message_view(rs[i as int])));
        i = i + 1;
        assert(rs.take(i as int).map_values(|m: JsonView| jan_message_view(m)) =~= before.push(
            jan_message_view(rs[i - 1]),
        ));
    }
    assert(rs.take(records@.len() as int) =~= rs);
    convo
}

/// The non-blank trimmed lines of a `messages.jsonl` text.
pub open spec fn jsonl_records_view(text: Seq<char>) -> Seq<Seq<char>> {
    lines_view(text).map_values(|l: Seq<char>| trim_view(l)).filter(|l: Seq<char>| l.len() > 0)
}

/// The record lines of a `messages.jsonl` text: each line trimmed, blank
/// lines skipped.
pub fn jsonl_records(text: &str) -> (r: Vec<String>)
    ensures
        r@.map_values(|s: String| s@) == jsonl_records_view(text@),
{
    let cs = chars_of(text);
    let lines = split_lines(cs.as_slice());
    let ghost ls = char_lines_view(lines@);
    let ghost trimmed = ls.map_values(|l: Seq<char>| trim_view(l));
    let mut out: Vec<String> = Vec::new();
    let mut i: usize = 0;
    while i < lines.len()
        invariant
            i <= lines@.len(),
            ls == char_lines_view(lines@),
            ls == lines_view(text@),
            trimmed == ls.map_values(|l: Seq<char>| trim_view(l)),
            out@.map_values(|s: String| s@) == trimmed.take(i as int).filter(
                |l: Seq<char>| l.len() > 0,
            ),
        decreases lines@.len() - i,
    {
        let t = trim_chars(lines[i].as_slice());
        proof {
            reveal(Seq::filter);
        }
        assert(trimmed.take(i + 1).drop_last() =~= trimmed.take(i as int));
        assert(trimmed.take(i + 1).last() == t@);
        let ghost before = out@.map_values(|s: String| s@);
        if t.len() > 0 {
            let s = string_from_chars(t.as_slice());
            out.push(s);
            assert(out@.map_values(|s: String| s@) =~= before.push(t@));
        } else {
            assert(out@.map_values(|s: String| s@) =~= before);
        }
        i = i + 1;
    }
    assert(trimmed.take(lines@.len() as int) =~= trimmed);
    out
}

/// The `data_folder` setting of Jan's `settings.json`, when a non-empty string.
pub open spec fn data_folder_setting_view(settings: JsonView) -> Option<Seq<char>> {
    match view_get_str(settings, "data_folder"@) {
        Some(f) => if f.len() > 0 {
            Some(f)
        } else {
            None
        },
        None => None,
    }
}

/// Reads the data-folder override from Jan's `settings.json` document.
pub fn data_folder_setting(settings: &Json) -> (r: Option<String>)
    ensures
        opt_view(r) == data_folder_setting_view(settings@),
{
    match settings.get("data_folder") {
        Some(f) => match f.as_str() {
            Some(f) => if f.is_empty() {
                None
            } else {
                Some(String::from_str(f))
            },
            None => None,
        },
        None => None,
    }
}

/// The title a new Jan thread gets: the conversation's title unless blank,
/// else the default title.
pub open spec fn import_title_view(c: ConversationView) -> Seq<char> {
    match c.title {
        Some(t) => if trim_view(t).len() > 0 {
            t
        } else {
            default_session_name()
        },
        None => default_session_name(),
    }
}

/// Picks the title of the imported thread.
pub fn import_title(convo: &Conversation) -> (t: String)
    ensures
        t@ == import_title_view(convo@),
{
    if let Some(t) = &convo.title {
        let trimmed = trim_str(t.as_str());
        if trimmed.unicode_len() > 0 {
            return t.clone();
        }
    }
    let lit = "来自 ContextSend";
    String::from_str(lit)
}

/// A number member.
pub open spec fn num_json(n: u64) -> JsonView {
    JsonView::PosInt(n)
}

/// `thread.json` of an imported thread.
pub open spec fn thread_meta_view(id: Seq<char>, title: Seq<char>, now: u64) -> JsonView {
    JsonView::Object(
        seq![
            ("id"@, JsonView::Str(id)),
            ("object"@, JsonView::Str("thread"@)),
            ("title"@, JsonView::Str(title)),
            ("assistants"@, JsonView::Array(Seq::empty())),
            ("created"@, num_json(now)),
            ("updated"@, num_json(now)),
            ("metadata"@, JsonView::Object(seq![("source"@, JsonView::Str("contextsend"@))])),
        ],
    )
}

/// Builds `thread.json` for an imported thread (no assistant chosen yet).
pub fn thread_meta_json(thread_id: &str, title: &str, now: u64) -> (j: Json)
    ensures
        j@ == thread_meta_view(thread_id@, title@, now),
{
    let mut md: Vec<(String, Json)> = Vec::new();
    push_entry(&mut md, "source", Json::from_str("contextsend"));
    assert(entry_views(md@) =~= seq![("source"@, JsonView::Str("contextsend"@))]);
    let mut es: Vec<(String, Json)> = Vec::new();
    push_entry(&mut es, "id", Json::from_str(thread_id));
    push_entry(&mut es, "object", Json::from_str("thread"));
    push_entry(&mut es, "title", Json::from_str(title));
    push_entry(&mut es, "assistants", empty_array());
    push_entry(&mut es, "created", Json::Number(JsonNumber::PosInt(now)));
    push_entry(&mut es, "updated", Json::Number(JsonNumber::PosInt(now)));
    push_entry(&mut es, "metadata", Json::object(md));
    assert(entry_views(es@) =~= seq![
        ("id"@, JsonView::Str(thread_id@)),
        ("object"@, JsonView::Str("thread"@)),
        ("title"@, JsonView::Str(title@)),
        ("assistants"@, JsonView::Array(Seq::empty())),
        ("created"@, num_json(now)),
        ("updated"@, num_json(now)),
        ("metadata"@, JsonView::Object(seq![("source"@, JsonView::Str("contextsend"@))])),
    ]);
    Json::object(es)
}

/// One line of `messages.jsonl` for an imported message.
pub open spec fn message_record_view(
    id: Seq<char>,
    thread_id: Seq<char>,
    m: MessageView,
    now: u64,
) -> JsonView {
    JsonView::Object(
        seq![
            ("id"@, JsonView::Str(id)),
            ("object"@, JsonView::Str("thread.message"@)),
            ("thread_id"@, JsonView::Str(thread_id)),
            ("role"@, JsonView::Str(role_name(m.role))),
            ("content"@, content_blocks_view(m.content)),
            ("status"@, JsonView::Str("ready"@)),
            ("created_at"@, num_json(now)),
            ("completed_at"@, num_json(now)),
        ],
    )
}

/// Builds the `messages.jsonl` record of one imported message.
pub fn message_record_json(id: &str, thread_id: &str, m: &ChatMessage, now: u64) -> (j: Json)
    ensures
        j@ == message_record_view(id@, thread_id@, m@, now),
{
    let mut es: Vec<(String, Json)> = Vec::new();
    push_entry(&mut es, "id", Json::from_str(id));
    push_entry(&mut es, "object", Json::from_str("thread.message"));
    push_entry(&mut es, "thread_id", Json::from_str(thread_id));
    push_entry(&mut es, "role", Json::from_str(role_str(m.role)));
    push_entry(&mut es, "content", content_blocks(&m.content));
    push_entry(&mut es, "status", Json::from_str("ready"));
    push_entry(&mut es, "created_at", Json::Number(JsonNumber::PosInt(now)));
    push_entry(&mut es, "completed_at", Json::Number(JsonNumber::PosInt(now)));
    assert(entry_views(es@) =~= seq![
        ("id"@, JsonView::Str(id@)),
        ("object"@, JsonView::Str("thread.message"@)),
        ("thread_id"@, JsonView::Str(thread_id@)),
        ("role"@, JsonView::Str(role_name(m@.role))),
        ("content"@, content_blocks_view(m@.content)),
        ("status"@, JsonView::Str("ready"@)),
        ("created_at"@, num_json(now)),
        ("completed_at"@, num_json(now)),
    ]);
    Json::object(es)
}


proof fn lemma_text_block_reads_back(v: Seq<char>)
    ensures
        jan_block_text(text_block_view(v)) == v,
{
    reveal_strlit("type");
    reveal_strlit("text");
    reveal_strlit("value");
    reveal_strlit("annotations");
    reveal_strlit("reasoning");
    reveal_strlit("image_url");
    assert("type"@.len() == 4);
    assert("text"@.len() == 4);
    assert("type"@[1] != "text"@[1]);
    assert("value"@.len() == 5);
    assert("annotations"@.len() == 11);
    reveal_with_fuel(entries_get, 3);
}

proof fn lemma_image_block_reads_back(u: Seq<char>)
    ensures
        jan_block_text(image_block_view(u)) == image_placeholder_view(),
{
    reveal_strlit("type");
    reveal_strlit("text");
    reveal_strlit("reasoning");
    reveal_strlit("image_url");
    assert("type"@.len() == 4);
    assert("text"@.len() == 4);
    assert("image_url"@.len() == 9);
    assert("reasoning"@.len() == 9);
    assert("image_url"@[0] != "reasoning"@[0]);
    assert("type"@[1] != "text"@[1]);
    reveal_with_fuel(entries_get, 3);
}

proof fn lemma_blocks_read_back(ps: Seq<PartView>)
    ensures
        jan_blocks_text(ps.map_values(|p: PartView| jan_block(p))) == parts_text(ps),
    decreases ps.len(),
{
    let bs = ps.map_values(|p: PartView| jan_block(p));
    if ps.len() > 0 {
        assert(bs.drop_last() =~= ps.drop_last().map_values(|p: PartView| jan_block(p)));
        lemma_blocks_read_back(ps.drop_last());
        match ps.last() {
            PartView::Text(t) => lemma_text_block_reads_back(t),
            PartView::Image { url, .. } => lemma_image_block_reads_back(url),
        }
    }
}

/// Jan's content blocks read back as the content's text view: text blocks
/// give their text and images the `[图片]` placeholder.
pub proof fn lemma_content_roundtrip(c: ContentView)
    ensures
        content_to_text_view(content_blocks_view(c)) == content_text(c),
{
    reveal_with_fuel(jan_blocks_text, 2);
    match c {
        ContentView::Text(s) => {
            lemma_text_block_reads_back(s);
            assert(seq![text_block_view(s)].drop_last() =~= Seq::<JsonView>::empty());
        },
        ContentView::Parts(ps) => {
            let bs = ps.map_values(|p: PartView| jan_block(p));
            if bs.len() == 0 {
                lemma_text_block_reads_back(Seq::empty());
                assert(seq![text_block_view(Seq::empty())].drop_last() =~= Seq::<JsonView>::empty());
            } else {
                lemma_blocks_read_back(ps);
            }
        },
    }
}

/// A message written as a Jan record reads back with the same role and the
/// message's text view.
pub proof fn lemma_message_record_roundtrip(id: Seq<char>, thread_id: Seq<char>, m: MessageView, now: u64)
    ensures
        jan_message_view(message_record_view(id, thread_id, m, now)) == plain_message(
            m.role,
            content_text(m.content),
        ),
{
    reveal_strlit("id");
    reveal_strlit("object");
    reveal_strlit("thread_id");
    reveal_strlit("role");
    reveal_strlit("content");
    reveal_strlit("status");
    reveal_strlit("created_at");
    reveal_strlit("completed_at");
    reveal_strlit("system");
    reveal_strlit("assistant");
    reveal_strlit("tool");
    reveal_strlit("user");
    assert("id"@.len() == 2);
    assert("object"@.len() == 6);
    assert("thread_id"@.len() == 9);
    assert("role"@.len() == 4);
    assert("content"@.len() == 7);
    assert("status"@.len() == 6);
    assert("created_at"@.len() == 10);
    assert("completed_at"@.len() == 12);
    assert("system"@.len() == 6);
    assert("assistant"@.len() == 9);
    assert("tool"@.len() == 4);
    assert("user"@.len() == 4);
    assert("user"@[0] != "tool"@[0]);
    reveal_with_fuel(entries_get, 6);
    lemma_content_roundtrip(m.content);
}

/// The text of two block lists one after the other is the text of the first
/// followed by the text of the second.
proof fn lemma_jan_blocks_text_concat(a: Seq<JsonView>, b: Seq<JsonView>)
    ensures
        jan_blocks_text(a + b) == jan_blocks_text(a) + jan_blocks_text(b),
    decreases b.len(),
{
    if b.len() == 0 {
        assert(a + b =~= a);
        assert(jan_blocks_text(a) + Seq::<char>::empty() =~= jan_blocks_text(a));
    } else {
        lemma_jan_blocks_text_concat(a, b.drop_last());
        assert((a + b).drop_last() =~= a + b.drop_last());
        assert((a + b).last() == b.last());
        assert(jan_blocks_text(a + b) =~= jan_blocks_text(a) + jan_blocks_text(b));
    }
}

/// The text of a block list with one block in the middle.
proof fn lemma_jan_blocks_text_split(pre: Seq<JsonView>, b: JsonView, post: Seq<JsonView>)
    ensures
        jan_blocks_text(pre + seq![b] + post) == jan_blocks_text(pre) + jan_block_text(b)
            + jan_blocks_text(post),
{
    lemma_jan_blocks_text_concat(pre, seq![b]);
    lemma_jan_blocks_text_concat(pre + seq![b], post);
    assert(seq![b].drop_last() =~= Seq::<JsonView>::empty());
    assert(jan_blocks_text(Seq::<JsonView>::empty()) == Seq::<char>::empty());
    assert(Seq::<char>::empty() + jan_block_text(b) =~= jan_block_text(b));
    assert(jan_blocks_text(seq![b]) =~= jan_block_text(b));
}

/// A Jan block of type "text" or "reasoning" whose `text.value` is a string
/// contributes exactly that string, in its place, to the recovered text.
pub proof fn lemma_jan_text_block_contributes(
    pre: Seq<JsonView>,
    b: JsonView,
    post: Seq<JsonView>,
    v: Seq<char>,
)
    requires
        view_get_str(b, "type"@) == Some("text"@) || view_get_str(b, "type"@) == Some("reasoning"@),
        view_get(b, "text"@) matches Some(t) && view_get_str(t, "value"@) == Some(v),
    ensures
        content_to_text_view(JsonView::Array(pre + seq![b] + post)) == content_to_text_view(
            JsonView::Array(pre),
        ) + v + content_to_text_view(JsonView::Array(post)),
{
    lemma_jan_blocks_text_split(pre, b, post);
}

/// A Jan block of type "image_url" contributes the image placeholder, in its
/// place, to the recovered text.
pub proof fn lemma_jan_image_block_contributes(pre: Seq<JsonView>, b: JsonView, post: Seq<JsonView>)
    requires
        view_get_str(b, "type"@) == Some("image_url"@),
    ensures
        content_to_text_view(JsonView::Array(pre + seq![b] + post)) == content_to_text_view(
            JsonView::Array(pre),
        ) + image_placeholder_view() + content_to_text_view(JsonView::Array(post)),
{
    reveal_strlit("text");
    reveal_strlit("reasoning");
    reveal_strlit("image_url");
    assert("text"@.len() == 4);
    assert("image_url"@.len() == 9);
    assert("reasoning"@.len() == 9);
    assert("image_url"@[0] != "reasoning"@[0]);
    lemma_jan_blocks_text_split(pre, b, post);
}

/// A Jan block of any other type, or a text or reasoning block without a
/// string `text.value`, adds nothing to the recovered text; content that is
/// not an array, or an empty array, has no text.
pub proof fn lemma_jan_other_block_adds_nothing(
    pre: Seq<JsonView>,
    b: JsonView,
    post: Seq<JsonView>,
    c: JsonView,
)
    requires
        view_get_str(b, "type"@) != Some("image_url"@),
        (view_get_str(b, "type"@) == Some("text"@) || view_get_str(b, "type"@) == Some(
            "reasoning"@,
        )) ==> !(view_get(b, "text"@) matches Some(t) && view_get_str(t, "value"@) is Some),
        !(c is Array),
    ensures
        content_to_text_view(JsonView::Array(pre + seq![b] + post)) == content_to_text_view(
            JsonView::Array(pre),
        ) + content_to_text_view(JsonView::Array(post)),
        content_to_text_view(c) == Seq::<char>::empty(),
        content_to_text_view(JsonView::Array(Seq::empty())) == Seq::<char>::empty(),
{
    lemma_jan_blocks_text_split(pre, b, post);
    assert(jan_block_text(b) == Seq::<char>::empty());
    assert(jan_blocks_text(pre) + Seq::<char>::empty() =~= jan_blocks_text(pre));
}

/// An imported thread keeps the conversation's title when it is not blank.
pub proof fn lemma_import_title_kept(c: ConversationView)
    requires
        c.title matches Some(t) && trim_view(t).len() > 0,
    ensures
        import_title_view(c) == c.title->0,
{
}

} // verus!
