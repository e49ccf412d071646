//! ChatBox adapter: the data conversions between ChatBox's stored sessions
//! and [`Conversation`]s, the DevTools HTTP reply parsing, and the scripts
//! injected into the ChatBox renderer through the Chrome DevTools Protocol.
//!
//! The transport itself (TCP to the DevTools port, the CDP WebSocket) runs in
//! the application; this module decides what is sent and how replies read.

use vstd::prelude::*;
use vstd::string::*;

use crate::config::{config_get_view, AdapterConfig};
use crate::error::AdapterError;
use crate::text::{
    image_placeholder, image_placeholder_view,
    chars_eq_ignore_ascii_case, chars_of, char_lines_view, eq_ignore_ascii_case_view, find_char,
    lines_view, parse_usize, parse_usize_view, slice_chars, split_lines, take_chars, take_view,
    trim_chars, trim_str, trim_view,
};
use crate::json::{
    entries_get, lemma_entries_get_concat, lemma_entries_get_single,
    entry_views, jview, jviews, opt_jview, str_eq, view_get, view_get_str, view_get_u64, Json,
    JsonNumber, JsonView,
};
use crate::message::{
    content_text, is_image_part, messages_view, metadata_is_empty, opt_metadata_view, opt_view, parts_have_image,
    parts_text, parts_view, Conversation, ConversationView, MessageView, role_name, usage_is_empty, ChatMessage, ContentPart, ContentView,
    ImageUrl, MessageContent, MessageMetadata, MetadataView, PartView, Role, TokenUsage,
};

verus! {

broadcast use vstd::string::group_string_axioms;

/// Default CDP debugging port (matches `--remote-debugging-port`).
pub const DEFAULT_DEBUG_PORT: u16 = 9222;

/// The wire name of a role.
pub fn role_str(role: Role) -> (s: &'static str)
    ensures
        s@ == role_name(role),
{
    role.as_str()
}

/// The role that a wire name stands for; unknown names read as `user`.
pub open spec fn parse_role_view(s: Seq<char>) -> Role {
    if s == "system"@ {
        Role::System
    } else if s == "assistant"@ {
        Role::Assistant
    } else if s == "tool"@ {
        Role::Tool
    } else {
        Role::User
    }
}

/// Maps a ChatBox role string back to a [`Role`] (unknown values are `User`).
pub fn parse_role(s: &str) -> (r: Role)
    ensures
        r == parse_role_view(s@),
{
    if str_eq(s, "system") {
        Role::System
    } else if str_eq(s, "assistant") {
        Role::Assistant
    } else if str_eq(s, "tool") {
        Role::Tool
    } else {
        Role::User
    }
}

/// Pushes one member onto a list of object entries.
pub fn push_entry(es: &mut Vec<(String, Json)>, key: &str, value: Json)
    ensures
        entry_views(final(es)@) == entry_views(old(es)@).push((key@, value@)),
{
    let ghost before = es@;
    es.push((String::from_str(key), value));
    assert(entry_views(es@) =~= entry_views(before).push((key@, jview(es@.last().1))));
}

/// `{"type": kind, field: value}` with string members.
pub open spec fn typed_json(kind: Seq<char>, field: Seq<char>, value: Seq<char>) -> JsonView {
    JsonView::Object(seq![("type"@, JsonView::Str(kind)), (field, JsonView::Str(value))])
}

fn typed_object(kind: &str, field: &str, value: &str) -> (j: Json)
    ensures
        j@ == typed_json(kind@, field@, value@),
{
    let mut es: Vec<(String, Json)> = Vec::new();
    push_entry(&mut es, "type", Json::from_str(kind));
    push_entry(&mut es, field, Json::from_str(value));
    assert(entry_views(es@) =~= seq![("type"@, JsonView::Str(kind@)), (field@, JsonView::Str(value@))]);
    Json::object(es)
}

/// The injected-script form of one content block.
pub open spec fn part_json(p: PartView) -> JsonView {
    match p {
        PartView::Text(t) => typed_json("text"@, "text"@, t),
        PartView::Image { url, .. } => typed_json("image"@, "url"@, url),
    }
}

/// The `parts` array that the import script expects for a message content.
pub open spec fn message_parts_json(c: ContentView) -> Seq<JsonView> {
    match c {
        ContentView::Text(t) => seq![typed_json("text"@, "text"@, t)],
        ContentView::Parts(ps) => ps.map_values(|p: PartView| part_json(p)),
    }
}

/// Converts a message into the `parts` array of the import script: a text
/// message gives one text part; blocks map one to one, images by their URL.
pub fn message_to_parts(m: &ChatMessage) -> (r: Vec<Json>)
    ensures
        jviews(r@) == message_parts_json(m@.content),
{
    match &m.content {
        MessageContent::Text(t) => {
            let mut r: Vec<Json> = Vec::new();
            r.push(typed_object("text", "text", t.as_str()));
            assert(jviews(r@) =~= message_parts_json(m@.content));
            r
        },
        MessageContent::Parts(parts) => {
            let mut r: Vec<Json> = Vec::new();
            let mut i: usize = 0;
            while i < parts.len()
                invariant
                    i <= parts@.len(),
                    m@.content == ContentView::Parts(parts_view(parts@)),
                    jviews(r@) =~= parts_view(parts@).take(i as int).map_values(
                        |p: PartView| part_json(p),
                    ),
                decreases parts@.len() - i,
            {
                let j = match &parts[i] {
                    ContentPart::Text { text } => typed_object("text", "text", text.as_str()),
                    ContentPart::ImageUrl { image_url } => typed_object(
                        "image",
                        "url",
                        image_url.url.as_str(),
                    ),
                };
                assert(parts_view(parts@)[i as int] == parts@[i as int]@);
                assert(j@ == part_json(parts_view(parts@)[i as int]));
                let ghost old_r = r@;
                r.push(j);
                assert(jviews(r@) =~= jviews(old_r).push(j@));
                i = i + 1;
                assert(jviews(r@) =~= parts_view(parts@).take(i as int).map_values(
                    |p: PartView| part_json(p),
                ));
            }
            assert(parts_view(parts@).take(parts@.len() as int) =~= parts_view(parts@));
            r
        },
    }
}

/// A string member when the value is present.
pub open spec fn str_entry(key: Seq<char>, o: Option<Seq<char>>) -> Seq<(Seq<char>, JsonView)> {
    match o {
        Some(v) => seq![(key, JsonView::Str(v))],
        None => Seq::empty(),
    }
}

/// A number member when the value is present.
pub open spec fn num_entry(key: Seq<char>, o: Option<u64>) -> Seq<(Seq<char>, JsonView)> {
    match o {
        Some(n) => seq![(key, JsonView::PosInt(n))],
        None => Seq::empty(),
    }
}

/// A present count as a JSON number.
pub open spec fn opt_num_json(o: Option<u64>) -> Option<JsonView> {
    match o {
        Some(n) => Some(JsonView::PosInt(n)),
        None => None,
    }
}

/// The `usage` object: present token counts only.
pub open spec fn usage_json(u: TokenUsage) -> JsonView {
    JsonView::Object(
        num_entry("inputTokens"@, u.input_tokens) + num_entry("outputTokens"@, u.output_tokens)
            + num_entry("totalTokens"@, u.total_tokens) + num_entry(
            "reasoningTokens"@,
            u.reasoning_tokens,
        ) + num_entry("cachedInputTokens"@, u.cached_input_tokens),
    )
}

/// The `usage` member, present only for a non-empty usage.
pub open spec fn usage_entry(u: Option<TokenUsage>) -> Seq<(Seq<char>, JsonView)> {
    match u {
        Some(u) => if usage_is_empty(u) {
            Seq::empty()
        } else {
            seq![("usage"@, usage_json(u))]
        },
        None => Seq::empty(),
    }
}

/// The `meta` object of the import script: present fields only, camelCase.
pub open spec fn metadata_json(m: MetadataView) -> JsonView {
    JsonView::Object(
        str_entry("model"@, m.model) + str_entry("provider"@, m.provider) + num_entry(
            "firstTokenLatency"@,
            m.first_token_latency_ms,
        ) + str_entry("finishReason"@, m.finish_reason) + usage_entry(m.usage),
    )
}

pub(crate) fn push_opt_str(es: &mut Vec<(String, Json)>, key: &str, o: &Option<String>)
    ensures
        entry_views(final(es)@) == entry_views(old(es)@) + str_entry(key@, opt_view(*o)),
{
    match o {
        Some(v) => push_entry(es, key, Json::Str(v.clone())),
        None => {},
    }
    assert(entry_views(es@) =~= entry_views(old(es)@) + str_entry(key@, opt_view(*o)));
}

pub(crate) fn push_opt_num(es: &mut Vec<(String, Json)>, key: &str, o: Option<u64>)
    ensures
        entry_views(final(es)@) == entry_views(old(es)@) + num_entry(key@, o),
{
    match o {
        Some(n) => push_entry(es, key, Json::Number(JsonNumber::PosInt(n))),
        None => {},
    }
    assert(entry_views(es@) =~= entry_views(old(es)@) + num_entry(key@, o));
}

pub(crate) fn usage_to_json(u: &TokenUsage) -> (j: Json)
    ensures
        j@ == usage_json(*u),
{
    let mut es: Vec<(String, Json)> = Vec::new();
    push_opt_num(&mut es, "inputTokens", u.input_tokens);
    push_opt_num(&mut es, "outputTokens", u.output_tokens);
    push_opt_num(&mut es, "totalTokens", u.total_tokens);
    push_opt_num(&mut es, "reasoningTokens", u.reasoning_tokens);
    push_opt_num(&mut es, "cachedInputTokens", u.cached_input_tokens);
    assert(entry_views(es@) =~= num_entry("inputTokens"@, u.input_tokens) + num_entry(
        "outputTokens"@,
        u.output_tokens,
    ) + num_entry("totalTokens"@, u.total_tokens) + num_entry(
        "reasoningTokens"@,
        u.reasoning_tokens,
    ) + num_entry("cachedInputTokens"@, u.cached_input_tokens));
    Json::object(es)
}

/// Converts metadata into the `meta` object of the import script (the
/// inverse direction of [`parse_metadata`]).
pub fn metadata_to_json(meta: &MessageMetadata) -> (j: Json)
    ensures
        j@ == metadata_json(meta@),
{
    let mut es: Vec<(String, Json)> = Vec::new();
    push_opt_str(&mut es, "model", &meta.model);
    push_opt_str(&mut es, "provider", &meta.provider);
    push_opt_num(&mut es, "firstTokenLatency", meta.first_token_latency_ms);
    push_opt_str(&mut es, "finishReason", &meta.finish_reason);
    let ghost before = entry_views(es@);
    match &meta.usage {
        Some(u) => {
            if !u.is_empty() {
                push_entry(&mut es, "usage", usage_to_json(u));
            }
        },
        None => {},
    }
    assert(entry_views(es@) =~= before + usage_entry(meta.usage));
    assert(entry_views(es@) =~= str_entry("model"@, meta@.model) + str_entry(
        "provider"@,
        meta@.provider,
    ) + num_entry("firstTokenLatency"@, meta@.first_token_latency_ms) + str_entry(
        "finishReason"@,
        meta@.finish_reason,
    ) + usage_entry(meta@.usage));
    Json::object(es)
}


/// The title used when a conversation has neither title nor text.
pub open spec fn default_session_name() -> Seq<char> {
    "来自 ContextSend"@
}

/// The first 20 characters of the first message whose trimmed text is not
/// empty, or the default title.
pub open spec fn first_snippet(ms: Seq<MessageView>) -> Seq<char>
    decreases ms.len(),
{
    if ms.len() == 0 {
        default_session_name()
    } else {
        let t = trim_view(content_text(ms[0].content));
        if t.len() > 0 {
            take_view(t, 20)
        } else {
            first_snippet(ms.drop_first())
        }
    }
}

/// The display title of a conversation: its trimmed title when not blank,
/// otherwise a snippet of its first non-blank message, otherwise the default.
pub open spec fn session_name_view(c: ConversationView) -> Seq<char> {
    match c.title {
        Some(t) => if trim_view(t).len() > 0 {
            trim_view(t)
        } else {
            first_snippet(c.messages)
        },
        None => first_snippet(c.messages),
    }
}

/// Whether a message's text is blank once trimmed.
pub open spec fn message_is_blank(m: MessageView) -> bool {
    trim_view(content_text(m.content)).len() == 0
}

/// The snippet of a message list is taken from its first non-blank message.
proof fn lemma_first_snippet_at(ms: Seq<MessageView>, i: int)
    requires
        0 <= i < ms.len(),
        !message_is_blank(ms[i]),
        forall|q: int| 0 <= q < i ==> message_is_blank(#[trigger] ms[q]),
    ensures
        first_snippet(ms) == take_view(trim_view(content_text(ms[i].content)), 20),
    decreases i,
{
    if i > 0 {
        assert(message_is_blank(ms[0]));
        let rest = ms.drop_first();
        assert forall|q: int| 0 <= q < i - 1 implies message_is_blank(#[trigger] rest[q]) by {
            assert(rest[q] == ms[q + 1]);
            assert(message_is_blank(ms[q + 1]));
        }
        assert(rest[i - 1] == ms[i]);
        lemma_first_snippet_at(rest, i - 1);
    }
}

/// With every message blank, the snippet is the default title.
proof fn lemma_first_snippet_all_blank(ms: Seq<MessageView>)
    requires
        forall|q: int| 0 <= q < ms.len() ==> message_is_blank(#[trigger] ms[q]),
    ensures
        first_snippet(ms) == default_session_name(),
    decreases ms.len(),
{
    if ms.len() > 0 {
        assert(message_is_blank(ms[0]));
        let rest = ms.drop_first();
        assert forall|q: int| 0 <= q < rest.len() implies message_is_blank(#[trigger] rest[q]) by {
            assert(rest[q] == ms[q + 1]);
            assert(message_is_blank(ms[q + 1]));
        }
        lemma_first_snippet_all_blank(rest);
    }
}

/// A title that is not blank, trimmed, is the session name.
pub proof fn lemma_session_name_prefers_title(c: ConversationView)
    requires
        c.title is Some,
        trim_view(c.title->0).len() > 0,
    ensures
        session_name_view(c) == trim_view(c.title->0),
{
}

/// When the title is missing or blank, the session name is the first 20
/// characters of the trimmed text of the first message whose trimmed text is
/// not empty (every earlier message being blank).
pub proof fn lemma_session_name_first_nonblank(c: ConversationView, i: int)
    requires
        c.title is None || trim_view(c.title->0).len() == 0,
        0 <= i < c.messages.len(),
        trim_view(content_text(c.messages[i].content)).len() > 0,
        forall|q: int| 0 <= q < i ==> trim_view(content_text(#[trigger] c.messages[q].content)).len() == 0,
    ensures
        session_name_view(c) == take_view(trim_view(content_text(c.messages[i].content)), 20),
{
    assert forall|q: int| 0 <= q < i implies message_is_blank(#[trigger] c.messages[q]) by {
        assert(trim_view(content_text(c.messages[q].content)).len() == 0);
    }
    lemma_first_snippet_at(c.messages, i);
}

/// When the title is missing or blank and every message is blank, the
/// session name is the default title.
pub proof fn lemma_session_name_all_blank(c: ConversationView)
    requires
        c.title is None || trim_view(c.title->0).len() == 0,
        forall|q: int| 0 <= q < c.messages.len() ==> trim_view(content_text(#[trigger] c.messages[q].content)).len() == 0,
    ensures
        session_name_view(c) == default_session_name(),
{
    assert forall|q: int| 0 <= q < c.messages.len() implies message_is_blank(#[trigger] c.messages[q]) by {
        assert(trim_view(content_text(c.messages[q].content)).len() == 0);
    }
    lemma_first_snippet_all_blank(c.messages);
}

/// Picks the display title of a conversation for ChatBox's session list.
pub fn session_name(convo: &Conversation) -> (r: String)
    ensures
        r@ == session_name_view(convo@),
{
    if let Some(t) = &convo.title {
        let trimmed = trim_str(t.as_str());
        if trimmed.unicode_len() > 0 {
            return trimmed;
        }
    }
    let ghost ms = messages_view(convo.messages@);
    let mut i: usize = 0;
    assert(ms.skip(0) =~= ms);
    while i < convo.messages.len()
        invariant
            i <= convo.messages@.len(),
            ms == messages_view(convo.messages@),
            session_name_view(convo@) == first_snippet(ms),
            first_snippet(ms) == first_snippet(ms.skip(i as int)),
        decreases convo.messages@.len() - i,
    {
        let text = convo.messages[i].text();
        let cs = chars_of(text.as_str());
        let trimmed = trim_chars(cs.as_slice());
        assert(ms.skip(i as int)[0] == convo.messages@[i as int]@);
        if trimmed.len() > 0 {
            return take_chars(trimmed.as_slice(), 20);
        }
        assert(ms.skip(i as int).drop_first() =~= ms.skip(i + 1));
        i = i + 1;
    }
    assert(ms.skip(i as int).len() == 0);
    let lit = "来自 ContextSend";
    String::from_str(lit)
}

/// Whether an empty line (`\r\n\r\n`) starts at byte `i`.
pub open spec fn blank_line_at_bytes(b: Seq<u8>, i: int) -> bool {
    0 <= i && i + 4 <= b.len() && b[i] == 13 && b[i + 1] == 10 && b[i + 2] == 13 && b[i + 3]
        == 10
}

/// The offset of the first `\r\n\r\n` of a byte buffer.
pub open spec fn headers_end_view(b: Seq<u8>) -> Option<int> {
    if exists|i: int| blank_line_at_bytes(b, i) {
        Some(
            choose|i: int|
                blank_line_at_bytes(b, i) && forall|k: int| 0 <= k < i ==> !blank_line_at_bytes(b, k),
        )
    } else {
        None
    }
}

/// Finds where the header block of an HTTP reply ends: the offset of the
/// first `\r\n\r\n`.
pub fn find_headers_end(buf: &[u8]) -> (r: Option<usize>)
    ensures
        match r {
            Some(i) => blank_line_at_bytes(buf@, i as int) && forall|k: int|
                0 <= k < i ==> !blank_line_at_bytes(buf@, k),
            None => forall|k: int| !blank_line_at_bytes(buf@, k),
        },
        match r {
            Some(i) => headers_end_view(buf@) == Some(i as int),
            None => headers_end_view(buf@) is None,
        },
{
    if buf.len() < 4 {
        return None;
    }
    let mut i: usize = 0;
    while i < buf.len() - 3
        invariant
            buf@.len() >= 4,
            i + 3 <= buf@.len(),
            forall|k: int| 0 <= k < i ==> !blank_line_at_bytes(buf@, k),
        decreases buf@.len() - i,
    {
        if buf[i] == 13 && buf[i + 1] == 10 && buf[i + 2] == 13 && buf[i + 3] == 10 {
            proof {
                let j = choose|j: int|
                    blank_line_at_bytes(buf@, j) && forall|k: int|
                        0 <= k < j ==> !blank_line_at_bytes(buf@, k);
                assert(blank_line_at_bytes(buf@, i as int));
                if j < i {
                } else if j > i {
                    assert(!blank_line_at_bytes(buf@, i as int));
                }
            }
            return Some(i);
        }
        i = i + 1;
    }
    None
}

/// Whether an empty line (`\r\n\r\n`) starts at character `i`.
pub open spec fn blank_line_at(s: Seq<char>, i: int) -> bool {
    0 <= i && i + 4 <= s.len() && s[i] == '\r' && s[i + 1] == '\n' && s[i + 2] == '\r' && s[i
        + 3] == '\n'
}

fn find_blank_line(s: &[char]) -> (r: Option<usize>)
    ensures
        match r {
            Some(i) => blank_line_at(s@, i as int) && forall|k: int|
                0 <= k < i ==> !blank_line_at(s@, k),
            None => forall|k: int| !blank_line_at(s@, k),
        },
{
    if s.len() < 4 {
        return None;
    }
    let mut i: usize = 0;
    while i < s.len() - 3
        invariant
            s@.len() >= 4,
            i + 3 <= s@.len(),
            forall|k: int| 0 <= k < i ==> !blank_line_at(s@, k),
        decreases s@.len() - i,
    {
        if s[i] == '\r' && s[i + 1] == '\n' && s[i + 2] == '\r' && s[i + 3] == '\n' {
            return Some(i);
        }
        i = i + 1;
    }
    None
}

/// The body of a raw HTTP reply: what follows the first `\r\n\r\n`.
pub fn http_body(raw: &str) -> (r: Option<&str>)
    ensures
        match r {
            Some(body) => exists|i: int|
                blank_line_at(raw@, i) && (forall|k: int| 0 <= k < i ==> !blank_line_at(raw@, k))
                    && body@ == raw@.skip(i + 4),
            None => forall|k: int| !blank_line_at(raw@, k),
        },
{
    let cs = chars_of(raw);
    match find_blank_line(cs.as_slice()) {
        Some(i) => {
            let n = raw.unicode_len();
            let body = raw.substring_char(i + 4, n);
            assert(body@ =~= raw@.skip(i + 4));
            Some(body)
        },
        None => None,
    }
}

/// The parts of a header line around its first `:`.
pub open spec fn header_kv(l: Seq<char>) -> Option<(Seq<char>, Seq<char>)> {
    match crate::text::index_of(l, ':') {
        Some(i) => Some((l.take(i), l.skip(i + 1))),
        None => None,
    }
}

/// Whether a header line names `Content-Length` (any ASCII case).
pub open spec fn is_content_length_line(l: Seq<char>) -> bool {
    match header_kv(l) {
        Some((k, _)) => eq_ignore_ascii_case_view(k, "content-length"@),
        None => false,
    }
}

/// The value part of the first `Content-Length` line.
pub open spec fn first_content_length(ls: Seq<Seq<char>>) -> Option<Seq<char>>
    decreases ls.len(),
{
    if ls.len() == 0 {
        None
    } else if is_content_length_line(ls[0]) {
        match header_kv(ls[0]) {
            Some((_, v)) => Some(v),
            None => None,
        }
    } else {
        first_content_length(ls.drop_first())
    }
}

/// The `Content-Length` of a header block: the first such line decides,
/// its trimmed value read as a decimal `usize`.
pub open spec fn content_length_view(head: Seq<char>) -> Option<usize> {
    match first_content_length(lines_view(head)) {
        Some(v) => parse_usize_view(trim_view(v)),
        None => None,
    }
}

/// Reads `Content-Length` from an HTTP header block.
pub fn content_length(head: &str) -> (r: Option<usize>)
    ensures
        r == content_length_view(head@),
{
    let cs = chars_of(head);
    let lines = split_lines(cs.as_slice());
    let ghost ls = char_lines_view(lines@);
    let name = chars_of("content-length");
    let mut i: usize = 0;
    assert(ls.skip(0) =~= ls);
    while i < lines.len()
        invariant
            i <= lines@.len(),
            ls == char_lines_view(lines@),
            ls == lines_view(head@),
            name@ == "content-length"@,
            first_content_length(ls) == first_content_length(ls.skip(i as int)),
        decreases lines@.len() - i,
    {
        let line = &lines[i];
        assert(ls.skip(i as int)[0] == line@);
        if let Some(colon) = find_char(line.as_slice(), ':') {
            let key = slice_chars(line.as_slice(), 0, colon);
            assert(key@ =~= line@.take(colon as int));
            if chars_eq_ignore_ascii_case(key.as_slice(), name.as_slice()) {
                let value = slice_chars(line.as_slice(), colon + 1, line.len());
                assert(value@ =~= line@.skip(colon + 1));
                let trimmed = trim_chars(value.as_slice());
                return parse_usize(trimmed.as_slice());
            }
        }
        assert(ls.skip(i as int).drop_first() =~= ls.skip(i + 1));
        i = i + 1;
    }
    None
}


/// The placeholder of a tool call in a text view.
pub open spec fn tool_call_placeholder() -> Seq<char> {
    "[工具调用]"@
}

/// Appends text to a block list, merging it into a trailing text block;
/// empty text changes nothing.
pub open spec fn push_text_view(res: Seq<PartView>, t: Seq<char>) -> Seq<PartView> {
    if t.len() == 0 {
        res
    } else if res.len() > 0 && res.last() is Text {
        res.update(res.len() - 1, PartView::Text(res.last()->Text_0 + t))
    } else {
        res.push(PartView::Text(t))
    }
}

/// What one ChatBox content part adds: text and reasoning blocks their text,
/// an image with a resolved non-empty `url` an image block (otherwise the
/// image placeholder), a tool call its placeholder; anything else nothing.
pub open spec fn chatbox_part_step(res: Seq<PartView>, p: JsonView) -> Seq<PartView> {
    let ty = view_get_str(p, "type"@);
    if ty == Some("text"@) || ty == Some("reasoning"@) {
        match view_get_str(p, "text"@) {
            Some(t) => push_text_view(res, t),
            None => res,
        }
    } else if ty == Some("image"@) {
        match view_get_str(p, "url"@) {
            Some(u) => if u.len() > 0 {
                res.push(PartView::Image { url: u, detail: None })
            } else {
                push_text_view(res, image_placeholder_view())
            },
            None => push_text_view(res, image_placeholder_view()),
        }
    } else if ty == Some("tool-call"@) {
        push_text_view(res, tool_call_placeholder())
    } else {
        res
    }
}

/// The blocks of a ChatBox `contentParts` list, in order.
pub open spec fn chatbox_parts_fold(ps: Seq<JsonView>) -> Seq<PartView>
    decreases ps.len(),
{
    if ps.len() == 0 {
        Seq::empty()
    } else {
        chatbox_part_step(chatbox_parts_fold(ps.drop_last()), ps.last())
    }
}

/// A ChatBox `contentParts` value as message content: a non-array is empty
/// text; blocks with an image stay blocks, text-only blocks become one text.
pub open spec fn chatbox_content_view(parts: JsonView) -> ContentView {
    match parts {
        JsonView::Array(ps) => {
            let r = chatbox_parts_fold(ps);
            if parts_have_image(r) {
                ContentView::Parts(r)
            } else {
                ContentView::Text(parts_text(r))
            }
        },
        _ => ContentView::Text(Seq::empty()),
    }
}

fn push_text(result: &mut Vec<ContentPart>, t: &str)
    ensures
        parts_view(final(result)@) == push_text_view(parts_view(old(result)@), t@),
{
    if t.is_empty() {
        return ;
    }
    let ghost old_v = parts_view(result@);
    match result.pop() {
        Some(ContentPart::Text { text }) => {
            let mut text = text;
            let ghost prev = text@;
            text.append(t);
            result.push(ContentPart::Text { text });
            assert(parts_view(result@) =~= old_v.update(
                old_v.len() - 1,
                PartView::Text(prev + t@),
            ));
        },
        Some(other) => {
            result.push(other);
            assert(parts_view(result@) =~= old_v);
            result.push(ContentPart::Text { text: String::from_str(t) });
            assert(parts_view(result@) =~= old_v.push(PartView::Text(t@)));
        },
        None => {
            result.push(ContentPart::Text { text: String::from_str(t) });
            assert(parts_view(result@) =~= old_v.push(PartView::Text(t@)));
        },
    }
}

/// Converts a ChatBox `contentParts` array into message content.
pub fn content_parts_to_content(parts: &Json) -> (c: MessageContent)
    ensures
        c@ == chatbox_content_view(parts@),
{
    let arr = match parts.as_array() {
        Some(a) => a,
        None => {
            return MessageContent::Text(String::new());
        },
    };
    let ghost ps = jviews(arr@);
    let mut result: Vec<ContentPart> = Vec::new();
    let mut i: usize = 0;
    while i < arr.len()
        invariant
            i <= arr@.len(),
            ps == jviews(arr@),
            parts_view(result@) == chatbox_parts_fold(ps.take(i as int)),
        decreases arr@.len() - i,
    {
        let part = &arr[i];
        assert(ps.take(i + 1).drop_last() =~= ps.take(i as int));
        assert(ps.take(i + 1).last() == part@);
        let ty = match part.get("type") {
            Some(t) => t.as_str(),
            None => None,
        };
        let is_text = match ty {
            Some(t) => str_eq(t, "text") || str_eq(t, "reasoning"),
            None => false,
        };
        let is_image = match ty {
            Some(t) => str_eq(t, "image"),
            None => false,
        };
        let is_tool = match ty {
            Some(t) => str_eq(t, "tool-call"),
            None => false,
        };
        if is_text {
            match part.get("text") {
                Some(t) => match t.as_str() {
                    Some(t) => push_text(&mut result, t),
                    None => {},
                },
                None => {},
            }
        } else if is_image {
            let url = match part.get("url") {
                Some(u) => u.as_str(),
                None => None,
            };
            let mut pushed = false;
            if let Some(u) = url {
                if !u.is_empty() {
                    let ghost old_v = parts_view(result@);
                    result.push(
                        ContentPart::ImageUrl {
                            image_url: ImageUrl { url: String::from_str(u), detail: None },
                        },
                    );
                    assert(parts_view(result@) =~= old_v.push(
                        PartView::Image { url: u@, detail: None },
                    ));
                    pushed = true;
                }
            }
            if !pushed {
                let ph = image_placeholder();
                push_text(&mut result, ph.as_str());
            }
        } else if is_tool {
            let lit = "[工具调用]";
            push_text(&mut result, lit);
        }
        i = i + 1;
    }
    assert(ps.take(arr@.len() as int) =~= ps);
    let content = MessageContent::Parts(result);
    if content.has_image() {
        content
    } else {
        MessageContent::Text(content.as_text())
    }
}

/// A trimmed, non-blank string member.
pub open spec fn meta_text(meta: JsonView, k: Seq<char>) -> Option<Seq<char>> {
    match view_get_str(meta, k) {
        Some(v) => if trim_view(v).len() > 0 {
            Some(trim_view(v))
        } else {
            None
        },
        None => None,
    }
}

/// The token counts of a `usage` object.
pub open spec fn usage_from_json(u: JsonView) -> TokenUsage {
    TokenUsage {
        input_tokens: view_get_u64(u, "inputTokens"@),
        output_tokens: view_get_u64(u, "outputTokens"@),
        total_tokens: view_get_u64(u, "totalTokens"@),
        reasoning_tokens: view_get_u64(u, "reasoningTokens"@),
        cached_input_tokens: view_get_u64(u, "cachedInputTokens"@),
    }
}

/// The usage of a `meta` object, when it is an object with a count.
pub open spec fn meta_usage(meta: JsonView) -> Option<TokenUsage> {
    match view_get(meta, "usage"@) {
        Some(u) => if u is Object {
            let t = usage_from_json(u);
            if usage_is_empty(t) {
                None
            } else {
                Some(t)
            }
        } else {
            None
        },
        None => None,
    }
}

/// The metadata that a `meta` object carries; `None` for a non-object or a
/// blank one.
pub open spec fn parse_metadata_view(meta: JsonView) -> Option<MetadataView> {
    if !(meta is Object) {
        None
    } else {
        let m = MetadataView {
            model: meta_text(meta, "model"@),
            provider: meta_text(meta, "provider"@),
            usage: meta_usage(meta),
            first_token_latency_ms: view_get_u64(meta, "firstTokenLatency"@),
            finish_reason: meta_text(meta, "finishReason"@),
        };
        if metadata_is_empty(m) {
            None
        } else {
            Some(m)
        }
    }
}

fn member_text(meta: &Json, k: &str) -> (r: Option<String>)
    ensures
        opt_view(r) == meta_text(meta@, k@),
{
    match meta.get(k) {
        Some(v) => match v.as_str() {
            Some(s) => {
                let t = trim_str(s);
                if t.unicode_len() > 0 {
                    Some(t)
                } else {
                    None
                }
            },
            None => None,
        },
        None => None,
    }
}

fn member_u64(v: &Json, k: &str) -> (r: Option<u64>)
    ensures
        r == view_get_u64(v@, k@),
{
    match v.get(k) {
        Some(x) => x.as_u64(),
        None => None,
    }
}

/// Reads the generation metadata of one message from its `meta` object.
pub fn parse_metadata(meta: &Json) -> (r: Option<MessageMetadata>)
    ensures
        opt_metadata_view(r) == parse_metadata_view(meta@),
{
    if !meta.is_object() {
        return None;
    }
    let usage = match meta.get("usage") {
        Some(u) => if u.is_object() {
            let t = TokenUsage {
                input_tokens: member_u64(u, "inputTokens"),
                output_tokens: member_u64(u, "outputTokens"),
                total_tokens: member_u64(u, "totalTokens"),
                reasoning_tokens: member_u64(u, "reasoningTokens"),
                cached_input_tokens: member_u64(u, "cachedInputTokens"),
            };
            if t.is_empty() {
                None
            } else {
                Some(t)
            }
        } else {
            None
        },
        None => None,
    };
    let metadata = MessageMetadata {
        model: member_text(meta, "model"),
        provider: member_text(meta, "provider"),
        usage,
        first_token_latency_ms: member_u64(meta, "firstTokenLatency"),
        finish_reason: member_text(meta, "finishReason"),
    };
    if metadata.is_empty() {
        None
    } else {
        Some(metadata)
    }
}


/// One message of a ChatBox session: role (default `user`), content from
/// `contentParts` (default empty text) and metadata from `meta`.
pub open spec fn chatbox_message_view(m: JsonView) -> MessageView {
    MessageView {
        role: match view_get_str(m, "role"@) {
            Some(r) => parse_role_view(r),
            None => Role::User,
        },
        content: match view_get(m, "contentParts"@) {
            Some(p) => chatbox_content_view(p),
            None => ContentView::Text(Seq::empty()),
        },
        name: None,
        metadata: match view_get(m, "meta"@) {
            Some(x) => parse_metadata_view(x),
            None => None,
        },
    }
}

/// The model of the first message whose metadata names one.
pub open spec fn first_model(ms: Seq<MessageView>) -> Option<Seq<char>>
    decreases ms.len(),
{
    if ms.len() == 0 {
        None
    } else {
        match ms[0].metadata {
            Some(md) => if md.model is Some {
                md.model
            } else {
                first_model(ms.drop_first())
            },
            None => first_model(ms.drop_first()),
        }
    }
}

/// The messages of a session object (`messages` must be an array).
pub open spec fn chatbox_session_messages(s: JsonView) -> Seq<MessageView> {
    match view_get(s, "messages"@) {
        Some(JsonView::Array(ms)) => ms.map_values(|m: JsonView| chatbox_message_view(m)),
        _ => Seq::empty(),
    }
}

/// One session of the read script's reply as a conversation: trimmed
/// non-blank `name` as title, the model of its first message with one.
pub open spec fn chatbox_session_view(s: JsonView) -> ConversationView {
    let msgs = chatbox_session_messages(s);
    ConversationView {
        title: meta_text(s, "name"@),
        model: first_model(msgs),
        messages: msgs,
    }
}

/// The conversations of the read script's reply; a non-array gives none.
pub open spec fn sessions_view(v: JsonView) -> Seq<ConversationView> {
    match v {
        JsonView::Array(ss) => ss.map_values(|s: JsonView| chatbox_session_view(s)),
        _ => Seq::empty(),
    }
}

/// The views of a list of conversations.
pub open spec fn conversations_view(cs: Seq<Conversation>) -> Seq<ConversationView> {
    cs.map_values(|c: Conversation| c@)
}

fn chatbox_message(m: &Json) -> (r: ChatMessage)
    ensures
        r@ == chatbox_message_view(m@),
{
    let role = match m.get("role") {
        Some(r) => match r.as_str() {
            Some(r) => parse_role(r),
            None => Role::User,
        },
        None => Role::User,
    };
    let content = match m.get("contentParts") {
        Some(p) => content_parts_to_content(p),
        None => MessageContent::Text(String::new()),
    };
    let metadata = match m.get("meta") {
        Some(x) => parse_metadata(x),
        None => None,
    };
    ChatMessage { role, content, name: None, metadata }
}

fn chatbox_session(s: &Json) -> (c: Conversation)
    ensures
        c@ == chatbox_session_view(s@),
{
    let mut convo = Conversation::new();
    convo.title = member_text(s, "name");
    let ghost msgs = chatbox_session_messages(s@);
    let arr = match s.get("messages") {
        Some(ms) => ms.as_array(),
        None => None,
    };
    if let Some(ms) = arr {
        let ghost vs = jviews(ms@);
        let mut i: usize = 0;
        while i < ms.len()
            invariant
                i <= ms@.len(),
                vs == jviews(ms@),
                msgs == vs.map_values(|m: JsonView| chatbox_message_view(m)),
                messages_view(convo.messages@) =~= msgs.take(i as int),
                convo.model is None ==> first_model(msgs.take(i as int)) is None,
                convo.model is Some ==> opt_view(convo.model) == first_model(msgs) && first_model(
                    msgs,
                ) == first_model(msgs.take(i as int)),
                opt_view(convo.title) == meta_text(s@, "name"@),
            decreases ms@.len() - i,
        {
            let msg = chatbox_message(&ms[i]);
            assert(msgs[i as int] == msg@);
            proof {
                lemma_first_model_push(msgs, i as int);
            }
            if convo.model.is_none() {
                match &msg.metadata {
                    Some(md) => match &md.model {
                        Some(model) => {
                            convo.model = Some(model.clone());
                        },
                        None => {},
                    },
                    None => {},
                }
            }
            let ghost before = messages_view(convo.messages@);
            convo.messages.push(msg);
            assert(messages_view(convo.messages@) =~= before.push(msgs[i as int]));
            i = i + 1;
            proof {
                if first_model(msgs.take(i as int)) is Some {
                    lemma_first_model_prefix(msgs, i as int);
                }
            }
        }
        assert(msgs.take(ms@.len() as int) =~= msgs);
    } else {
        assert(msgs =~= Seq::<MessageView>::empty());
        assert(messages_view(convo.messages@) =~= msgs);
    }
    convo
}

/// Extending a message list keeps the first model already found, or takes
/// the new message's model when none was found yet.
proof fn lemma_first_model_push(msgs: Seq<MessageView>, i: int)
    requires
        0 <= i < msgs.len(),
    ensures
        first_model(msgs.take(i + 1)) == (match first_model(msgs.take(i)) {
            Some(m) => Some(m),
            None => match msgs[i].metadata {
                Some(md) => md.model,
                None => None,
            },
        }),
    decreases i,
{
    assert(msgs.take(i + 1)[0] == msgs[0]);
    if i > 0 {
        assert(msgs.take(i)[0] == msgs[0]);
        lemma_first_model_push(msgs.drop_first(), i - 1);
        assert(msgs.take(i + 1).drop_first() =~= msgs.drop_first().take(i));
        assert(msgs.take(i).drop_first() =~= msgs.drop_first().take(i - 1));
        assert(msgs.drop_first()[i - 1] == msgs[i]);
    } else {
        assert(msgs.take(1).drop_first() =~= Seq::<MessageView>::empty());
        assert(msgs.take(0) =~= Seq::<MessageView>::empty());
    }
}

/// A model found in a prefix is the first model of the whole list.
proof fn lemma_first_model_prefix(msgs: Seq<MessageView>, k: int)
    requires
        0 <= k <= msgs.len(),
        first_model(msgs.take(k)) is Some,
    ensures
        first_model(msgs) == first_model(msgs.take(k)),
    decreases k,
{
    if k > 0 {
        assert(msgs.take(k)[0] == msgs[0]);
        assert(msgs.take(k).drop_first() =~= msgs.drop_first().take(k - 1));
        if !(msgs[0].metadata is Some && msgs[0].metadata->0.model is Some) {
            lemma_first_model_prefix(msgs.drop_first(), k - 1);
        }
    } else {
        assert(msgs.take(0) =~= Seq::<MessageView>::empty());
    }
}

/// Maps the read script's reply (an array of `{name, messages}` sessions)
/// to conversations, one per session, in order.
pub fn sessions_json_to_conversations(value: &Json) -> (r: Vec<Conversation>)
    ensures
        conversations_view(r@) == sessions_view(value@),
{
    let arr = match value.as_array() {
        Some(a) => a,
        None => {
            let r: Vec<Conversation> = Vec::new();
            assert(conversations_view(r@) =~= sessions_view(value@));
            return r;
        },
    };
    let ghost vs = jviews(arr@);
    let mut out: Vec<Conversation> = Vec::new();
    let mut i: usize = 0;
    while i < arr.len()
        invariant
            i <= arr@.len(),
            vs == jviews(arr@),
            value@ == JsonView::Array(vs),
            conversations_view(out@) =~= vs.take(i as int).map_values(
                |s: JsonView| chatbox_session_view(s),
            ),
        decreases arr@.len() - i,
    {
        let c = chatbox_session(&arr[i]);
        let ghost before = conversations_view(out@);
        out.push(c);
        assert(conversations_view(out@) =~= before.push(chatbox_session_view(vs[i as int])));
        i = i + 1;
        assert(vs.take(i as int).map_values(|s: JsonView| chatbox_session_view(s)) =~= before.push(
            chatbox_session_view(vs[i - 1]),
        ));
    }
    assert(vs.take(arr@.len() as int) =~= vs);
    out
}


/// The read script: walks every `session:` key of the `chatboxstore`
/// database, returns one `{id, name, messages}` entry per topic (archived
/// threads and the current one), resolves image `storageKey`s into data URLs
/// through `getStoreBlob`, and normalizes generation metadata into `meta`.
pub const READ_SCRIPT: &'static str = r#"(async () => {
  const db = await new Promise((res, rej) => {
    const r = indexedDB.open('chatboxstore');
    r.onsuccess = () => res(r.result);
    r.onerror = () => rej(r.error);
  });
  if (!db.objectStoreNames.contains('keyvaluepairs')) return [];
  const os = db.transaction('keyvaluepairs', 'readonly').objectStore('keyvaluepairs');
  const entries = await new Promise((res, rej) => {
    const out = [];
    const cur = os.openCursor();
    cur.onsuccess = (e) => {
      const c = e.target.result;
      if (!c) return res(out);
      const key = String(c.key);
      if (key.startsWith('session:')) out.push([key, c.value]);
      c.continue();
    };
    cur.onerror = () => rej(cur.error);
  });
  // 图片字节读取桥 + 缓存（同一 storageKey 只取一次）。
  const blobCache = new Map();
  const api = (typeof window !== 'undefined') ? (window.electronAPI || window.platform) : null;
  const resolveBlob = async (key) => {
    if (blobCache.has(key)) return blobCache.get(key);
    let url = null;
    try { if (api && api.invoke) url = await api.invoke('getStoreBlob', key); } catch (e) { url = null; }
    blobCache.set(key, url);
    return url;
  };
  // 把一条消息精简为 {role, contentParts, meta}，并把 image 块的 storageKey 解析成 url。
  const slim = async (m) => {
    const role = m && m.role ? String(m.role) : 'user';
    const rawParts = Array.isArray(m && m.contentParts) ? m.contentParts : [];
    const parts = [];
    for (const p of rawParts) {
      if (p && p.type === 'image' && p.storageKey) {
        const url = await resolveBlob(String(p.storageKey));
        parts.push(url ? { type: 'image', url } : { type: 'image', storageKey: String(p.storageKey) });
      } else {
        parts.push(p);
      }
    }
    // 生成元数据：model / provider / 首字延迟 / finishReason / token 用量。
    // 仅在确有字段时附带 meta，避免给 user 消息塞空对象。
    let meta = null;
    if (m && (m.model || m.aiProvider || m.usage || m.firstTokenLatency != null || m.finishReason || m.tokensUsed != null)) {
      const u = (m.usage && typeof m.usage === 'object') ? m.usage : null;
      meta = {
        model: m.model != null ? String(m.model) : null,
        provider: m.aiProvider != null ? String(m.aiProvider) : null,
        firstTokenLatency: (typeof m.firstTokenLatency === 'number') ? m.firstTokenLatency : null,
        finishReason: m.finishReason != null ? String(m.finishReason) : null,
        usage: u ? {
          inputTokens: (typeof u.inputTokens === 'number') ? u.inputTokens : null,
          outputTokens: (typeof u.outputTokens === 'number') ? u.outputTokens : null,
          totalTokens: (typeof u.totalTokens === 'number') ? u.totalTokens : ((typeof m.tokensUsed === 'number') ? m.tokensUsed : null),
          reasoningTokens: (typeof u.reasoningTokens === 'number') ? u.reasoningTokens : null,
          cachedInputTokens: (typeof u.cachedInputTokens === 'number') ? u.cachedInputTokens : null,
        } : ((typeof m.tokensUsed === 'number') ? { totalTokens: m.tokensUsed } : null),
      };
    }
    return { role, contentParts: parts, meta };
  };
  const slimAll = async (msgs) => {
    const r = [];
    for (const m of msgs) r.push(await slim(m));
    return r;
  };
  const out = [];
  for (const [key, raw] of entries) {
    let s;
    try { s = typeof raw === 'string' ? JSON.parse(raw) : raw; } catch (e) { continue; }
    if (!s || typeof s !== 'object') continue;
    if (s.type && s.type !== 'chat') continue; // 仅对话类，跳过图片等
    const sid = key.slice('session:'.length);
    const sessionName = s.name || '';
    // 已归档的历史话题：各成一条。
    if (Array.isArray(s.threads)) {
      for (const th of s.threads) {
        if (!th || !Array.isArray(th.messages)) continue;
        out.push({ id: sid + ':' + (th.id || out.length), name: th.name || sessionName, messages: await slimAll(th.messages) });
      }
    }
    // 当前活跃话题：名字优先 threadName，回退 session 名。
    const curMsgs = Array.isArray(s.messages) ? await slimAll(s.messages) : [];
    if (curMsgs.length > 0) {
      out.push({ id: sid, name: s.threadName || sessionName, messages: curMsgs });
    }
  }
  return out;
})()"#;

/// The import script up to the embedded payload.
pub const IMPORT_SCRIPT_HEAD: &'static str = r#"(async () => {
  const payload = "#;

/// The import script between the payload and the session id.
pub const IMPORT_SCRIPT_MID: &'static str = r#";
  const sid = "#;

/// The import script after the session id: stores images through
/// `setStoreBlob`, writes `session:<id>` with `JSON.stringify(session)` and
/// appends the session to `chat-sessions-list`, restoring each message's
/// metadata with `applyMeta`.
pub const IMPORT_SCRIPT_TAIL: &'static str = r#";
  const now = Date.now();
  const api = (typeof window !== 'undefined') ? (window.electronAPI || window.platform) : null;
  const newKey = () => 'picture:' + ((crypto && crypto.randomUUID) ? crypto.randomUUID() : (sid + '-img-' + Math.random().toString(36).slice(2)));
  // 把一条消息的 parts 转成 ChatBox 的 contentParts；图片先写 blob 再引用 storageKey。
  const buildParts = async (parts) => {
    const out = [];
    for (const p of (Array.isArray(parts) ? parts : [])) {
      if (p && p.type === 'image' && p.url) {
        let stored = false;
        if (api && api.invoke) {
          try { const key = newKey(); await api.invoke('setStoreBlob', key, p.url); out.push({ type: 'image', storageKey: key }); stored = true; } catch (e) { stored = false; }
        }
        if (!stored) out.push({ type: 'text', text: '[图片]' }); // 无写盘桥时降级
      } else if (p && p.type === 'text') {
        out.push({ type: 'text', text: String(p.text || '') });
      }
    }
    if (out.length === 0) out.push({ type: 'text', text: '' });
    return out;
  };
  // 把 meta 还原成 ChatBox 的消息字段（仅在确有值时写，避免污染 user 消息）。
  const applyMeta = (msg, meta) => {
    if (!meta || typeof meta !== 'object') return;
    if (meta.model != null) msg.model = meta.model;
    if (meta.provider != null) msg.aiProvider = meta.provider;
    if (typeof meta.firstTokenLatency === 'number') msg.firstTokenLatency = meta.firstTokenLatency;
    if (meta.finishReason != null) msg.finishReason = meta.finishReason;
    const u = meta.usage;
    if (u && typeof u === 'object') {
      msg.usage = u;
      if (typeof u.totalTokens === 'number') msg.tokensUsed = u.totalTokens;
    }
  };
  const messages = [];
  for (let i = 0; i < payload.messages.length; i++) {
    const m = payload.messages[i];
    const msg = { id: sid + '-' + i, role: m.role, contentParts: await buildParts(m.parts), timestamp: now + i };
    applyMeta(msg, m.meta);
    messages.push(msg);
  }
  const session = { id: sid, type: 'chat', name: payload.name, messages };
  const db = await new Promise((res, rej) => {
    const r = indexedDB.open('chatboxstore');
    r.onsuccess = () => res(r.result);
    r.onerror = () => rej(r.error);
  });
  const tx = db.transaction('keyvaluepairs', 'readwrite');
  const os = tx.objectStore('keyvaluepairs');
  const get = (k) => new Promise((res, rej) => { const g = os.get(k); g.onsuccess = () => res(g.result); g.onerror = () => rej(g.error); });
  const put = (k, v) => new Promise((res, rej) => { const p = os.put(v, k); p.onsuccess = () => res(); p.onerror = () => rej(p.error); });
  await put('session:' + sid, JSON.stringify(session));
  let list = [];
  try { const raw = await get('chat-sessions-list'); if (raw) list = JSON.parse(raw); } catch (e) { list = []; }
  if (!Array.isArray(list)) list = [];
  list.push({ id: sid, name: payload.name, type: 'chat' });
  await put('chat-sessions-list', JSON.stringify(list));
  await new Promise((res, rej) => { tx.oncomplete = () => res(); tx.onerror = () => rej(tx.error); });
  return { ok: true, id: sid, total: list.length };
})()"#;

/// A hexadecimal digit, lower case.
pub open spec fn hex_digit(n: int) -> char {
    seq!['0', '1', '2', '3', '4', '5', '6', '7', '8', '9', 'a', 'b', 'c', 'd', 'e', 'f'][n]
}

/// How `serde_json` writes one character inside a string literal: quote and
/// backslash escaped, `\b \t \n \f \r` for those controls, `\u00xx` (lower-case
/// hex) for the other control characters below U+0020, anything else as is.
pub open spec fn json_escape_char(c: char) -> Seq<char> {
    if c == '"' {
        seq!['\\', '"']
    } else if c == '\\' {
        seq!['\\', '\\']
    } else if c == '\u{8}' {
        seq!['\\', 'b']
    } else if c == '\t' {
        seq!['\\', 't']
    } else if c == '\n' {
        seq!['\\', 'n']
    } else if c == '\u{c}' {
        seq!['\\', 'f']
    } else if c == '\r' {
        seq!['\\', 'r']
    } else if (c as u32) < 0x20 {
        seq!['\\', 'u', '0', '0', hex_digit((c as int) / 16), hex_digit((c as int) % 16)]
    } else {
        seq![c]
    }
}

/// The escaped characters of a text.
pub open spec fn json_escape(s: Seq<char>) -> Seq<char>
    decreases s.len(),
{
    if s.len() == 0 {
        Seq::empty()
    } else {
        json_escape(s.drop_last()) + json_escape_char(s.last())
    }
}

/// The JSON string literal that `serde_json` writes for a text.
pub open spec fn json_string_literal(s: Seq<char>) -> Seq<char> {
    seq!['"'] + json_escape(s) + seq!['"']
}

/// `serde_json::Value::String(s).to_string()`: the JSON string literal of a
/// text, quoted and escaped as [`json_string_literal`] states (serde_json's
/// `ESCAPE` table and `write_char_escape`).
#[verifier::external_body]
fn json_quote(s: &str) -> (r: String)
    ensures
        r@ == json_string_literal(s@),
{
    serde_json::Value::String(s.to_string()).to_string()
}

/// The import script for a session id and a payload (JSON text of
/// `{"name", "messages": [{"role", "parts", "meta"?}]}`).
pub open spec fn import_script_view(session_id: Seq<char>, payload: Seq<char>) -> Seq<char> {
    IMPORT_SCRIPT_HEAD@ + payload + IMPORT_SCRIPT_MID@ + json_string_literal(session_id)
        + IMPORT_SCRIPT_TAIL@
}

/// Builds the script that writes a new session into ChatBox's IndexedDB:
/// the payload is embedded as a JSON literal and the id as a JSON string.
pub fn build_import_script(session_id: &str, payload: &str) -> (r: String)
    ensures
        r@ == import_script_view(session_id@, payload@),
{
    let mut out = String::from_str(IMPORT_SCRIPT_HEAD);
    out.append(payload);
    out.append(IMPORT_SCRIPT_MID);
    let sid = json_quote(session_id);
    out.append(sid.as_str());
    out.append(IMPORT_SCRIPT_TAIL);
    out
}


/// The `meta` member of a payload message, present for non-blank metadata.
pub open spec fn meta_entry(md: Option<MetadataView>) -> Seq<(Seq<char>, JsonView)> {
    match md {
        Some(x) => if metadata_is_empty(x) {
            Seq::empty()
        } else {
            seq![("meta"@, metadata_json(x))]
        },
        None => Seq::empty(),
    }
}

/// One message of the import payload: `{"role", "parts", "meta"?}`.
pub open spec fn payload_message_view(m: MessageView) -> JsonView {
    JsonView::Object(
        seq![
            ("role"@, JsonView::Str(role_name(m.role))),
            ("parts"@, JsonView::Array(message_parts_json(m.content))),
        ] + meta_entry(m.metadata),
    )
}

/// The import payload of a conversation: `{"name", "messages"}`.
pub open spec fn import_payload_view(c: ConversationView) -> JsonView {
    JsonView::Object(
        seq![
            ("name"@, JsonView::Str(session_name_view(c))),
            ("messages"@, JsonView::Array(c.messages.map_values(|m: MessageView| payload_message_view(m)))),
        ],
    )
}

/// Converts one message into its import-payload form.
pub fn payload_message(m: &ChatMessage) -> (j: Json)
    ensures
        j@ == payload_message_view(m@),
{
    let mut es: Vec<(String, Json)> = Vec::new();
    push_entry(&mut es, "role", Json::from_str(role_str(m.role)));
    let parts = message_to_parts(m);
    push_entry(&mut es, "parts", Json::array(parts));
    let ghost before = entry_views(es@);
    match &m.metadata {
        Some(md) => {
            if !md.is_empty() {
                push_entry(&mut es, "meta", metadata_to_json(md));
            }
        },
        None => {},
    }
    assert(entry_views(es@) =~= before + meta_entry(m@.metadata));
    assert(entry_views(es@) =~= seq![
        ("role"@, JsonView::Str(role_name(m@.role))),
        ("parts"@, JsonView::Array(message_parts_json(m@.content))),
    ] + meta_entry(m@.metadata));
    Json::object(es)
}

/// Builds the payload that the import script writes as a new session.
pub fn import_payload(convo: &Conversation) -> (j: Json)
    ensures
        j@ == import_payload_view(convo@),
{
    let ghost ms = messages_view(convo.messages@);
    let mut msgs: Vec<Json> = Vec::new();
    let mut i: usize = 0;
    while i < convo.messages.len()
        invariant
            i <= convo.messages@.len(),
            ms == messages_view(convo.messages@),
            jviews(msgs@) =~= ms.take(i as int).map_values(|m: MessageView| payload_message_view(m)),
        decreases convo.messages@.len() - i,
    {
        let pm = payload_message(&convo.messages[i]);
        let ghost before = jviews(msgs@);
        msgs.push(pm);
        assert(jviews(msgs@) =~= before.push(payload_message_view(ms[i as int])));
        i = i + 1;
        assert(ms.take(i as int).map_values(|m: MessageView| payload_message_view(m)) =~= before.push(
            payload_message_view(ms[i - 1]),
        ));
    }
    assert(ms.take(convo.messages@.len() as int) =~= ms);
    let mut es: Vec<(String, Json)> = Vec::new();
    push_entry(&mut es, "name", Json::Str(session_name(convo)));
    push_entry(&mut es, "messages", Json::array(msgs));
    assert(entry_views(es@) =~= seq![
        ("name"@, JsonView::Str(session_name_view(convo@))),
        ("messages"@, JsonView::Array(ms.map_values(|m: MessageView| payload_message_view(m)))),
    ]);
    Json::object(es)
}

/// The DevTools port in use: the user's ChatBox override, else the default.
pub fn debug_port(config: &AdapterConfig) -> (p: u16)
    ensures
        p == (match config_get_view(config@, "chatbox"@).port {
            Some(p) => p,
            None => DEFAULT_DEBUG_PORT,
        }),
{
    match config.get("chatbox").port {
        Some(p) => p,
        None => DEFAULT_DEBUG_PORT,
    }
}

/// Whether the import script confirmed the write (`{"ok": true, ...}`).
pub fn import_confirmed(result: &Json) -> (b: bool)
    ensures
        b == (match view_get(result@, "ok"@) {
            Some(JsonView::Bool(x)) => x,
            _ => false,
        }),
{
    match result.get("ok") {
        Some(v) => match v.as_bool() {
            Some(x) => x,
            None => false,
        },
        None => false,
    }
}

/// The `webSocketDebuggerUrl` of the first page target of a DevTools
/// `/json` listing.
pub open spec fn page_target_ws_view(targets: JsonView) -> Option<Seq<char>> {
    match targets {
        JsonView::Array(ts) => first_page_ws(ts),
        _ => None,
    }
}

/// The debugger URL of the first target of type `page` (when it has one).
pub open spec fn first_page_ws(ts: Seq<JsonView>) -> Option<Seq<char>>
    decreases ts.len(),
{
    if ts.len() == 0 {
        None
    } else if view_get_str(ts[0], "type"@) == Some("page"@) {
        view_get_str(ts[0], "webSocketDebuggerUrl"@)
    } else {
        first_page_ws(ts.drop_first())
    }
}

/// Picks the page target to inject into from the DevTools `/json` listing:
/// the first target of type `page`, by its `webSocketDebuggerUrl`.
pub fn page_target_ws(targets: &Json) -> (r: Result<String, AdapterError>)
    ensures
        targets@ is Array ==> (match r {
            Ok(url) => page_target_ws_view(targets@) == Some(url@),
            Err(e) => page_target_ws_view(targets@) is None && e is ChatBox,
        }),
        !(targets@ is Array) ==> r is Err && r->Err_0 is ChatBox,
{
    let arr = match targets.as_array() {
        Some(a) => a,
        None => {
            return Err(AdapterError::ChatBox(String::from_str("DevTools /json 非数组")));
        },
    };
    let ghost ts = jviews(arr@);
    let mut i: usize = 0;
    assert(ts.skip(0) =~= ts);
    while i < arr.len()
        invariant
            i <= arr@.len(),
            ts == jviews(arr@),
            targets@ == JsonView::Array(ts),
            first_page_ws(ts) == first_page_ws(ts.skip(i as int)),
        decreases arr@.len() - i,
    {
        let t = &arr[i];
        assert(ts.skip(i as int)[0] == t@);
        let is_page = match t.get("type") {
            Some(ty) => match ty.as_str() {
                Some(ty) => str_eq(ty, "page"),
                None => false,
            },
            None => false,
        };
        if is_page {
            return match t.get("webSocketDebuggerUrl") {
                Some(u) => match u.as_str() {
                    Some(u) => Ok(String::from_str(u)),
                    None => Err(AdapterError::ChatBox(String::from_str("未找到可注入的 page target（ChatBox 窗口未就绪？）"))),
                },
                None => Err(AdapterError::ChatBox(String::from_str("未找到可注入的 page target（ChatBox 窗口未就绪？）"))),
            };
        }
        assert(ts.skip(i as int).drop_first() =~= ts.skip(i + 1));
        i = i + 1;
    }
    Err(AdapterError::ChatBox(String::from_str("未找到可注入的 page target（ChatBox 窗口未就绪？）")))
}


/// The text that `String::from_utf8_lossy` makes of some bytes.
pub uninterp spec fn utf8_lossy_view(b: Seq<u8>) -> Seq<char>;

/// `String::from_utf8_lossy`: valid UTF-8 decodes as such; the contract names
/// the result in general (invalid sequences become U+FFFD there).
#[verifier::external_body]
fn utf8_lossy(b: &[u8]) -> (s: String)
    ensures
        s@ == utf8_lossy_view(b@),
        vstd::utf8::valid_utf8(b@) ==> s@ == vstd::utf8::decode_utf8(b@),
{
    String::from_utf8_lossy(b).into_owned()
}

/// Whether a DevTools HTTP reply has fully arrived: its header block is
/// complete and either it has no `Content-Length` or the body already holds
/// that many bytes.
pub open spec fn response_complete_view(buf: Seq<u8>) -> bool {
    match headers_end_view(buf) {
        Some(e) => match content_length_view(utf8_lossy_view(buf.take(e))) {
            Some(len) => buf.len() - (e + 4) >= len,
            None => true,
        },
        None => false,
    }
}

/// Decides whether to stop reading a DevTools reply (the server keeps the
/// connection open, so the end is known from the headers).
pub fn response_complete(buf: &[u8]) -> (b: bool)
    ensures
        b == response_complete_view(buf@),
{
    match find_headers_end(buf) {
        Some(end) => {
            let head_bytes = slice_bytes(buf, end);
            let head = utf8_lossy(head_bytes.as_slice());
            match content_length(head.as_str()) {
                Some(len) => buf.len() - (end + 4) >= len,
                None => true,
            }
        },
        None => false,
    }
}

fn slice_bytes(b: &[u8], n: usize) -> (r: Vec<u8>)
    requires
        n <= b@.len(),
    ensures
        r@ == b@.take(n as int),
{
    let mut r: Vec<u8> = Vec::new();
    let mut i: usize = 0;
    while i < n
        invariant
            i <= n <= b@.len(),
            r@ == b@.take(i as int),
        decreases n - i,
    {
        r.push(b[i]);
        i = i + 1;
        assert(r@ =~= b@.take(i as int));
    }
    r
}

/// The CDP request that enables the `Runtime` domain (id 1).
pub open spec fn enable_request_view() -> JsonView {
    JsonView::Object(seq![("id"@, JsonView::PosInt(1)), ("method"@, JsonView::Str("Runtime.enable"@))])
}

/// The CDP `Runtime.evaluate` request (id 2) for a script, returning the
/// value by value and awaiting a promise when asked.
pub open spec fn evaluate_request_view(expression: Seq<char>, await_promise: bool) -> JsonView {
    JsonView::Object(
        seq![
            ("id"@, JsonView::PosInt(2)),
            ("method"@, JsonView::Str("Runtime.evaluate"@)),
            (
                "params"@,
                JsonView::Object(
                    seq![
                        ("expression"@, JsonView::Str(expression)),
                        ("awaitPromise"@, JsonView::Bool(await_promise)),
                        ("returnByValue"@, JsonView::Bool(true)),
                    ],
                ),
            ),
        ],
    )
}

/// Builds the request that enables the `Runtime` domain.
pub fn enable_request() -> (j: Json)
    ensures
        j@ == enable_request_view(),
{
    let mut es: Vec<(String, Json)> = Vec::new();
    push_entry(&mut es, "id", Json::Number(JsonNumber::PosInt(1)));
    push_entry(&mut es, "method", Json::from_str("Runtime.enable"));
    assert(entry_views(es@) =~= seq![
        ("id"@, JsonView::PosInt(1)),
        ("method"@, JsonView::Str("Runtime.enable"@)),
    ]);
    Json::object(es)
}

/// Builds the `Runtime.evaluate` request for a script.
pub fn evaluate_request(expression: &str, await_promise: bool) -> (j: Json)
    ensures
        j@ == evaluate_request_view(expression@, await_promise),
{
    let mut ps: Vec<(String, Json)> = Vec::new();
    push_entry(&mut ps, "expression", Json::from_str(expression));
    push_entry(&mut ps, "awaitPromise", Json::Bool(await_promise));
    push_entry(&mut ps, "returnByValue", Json::Bool(true));
    assert(entry_views(ps@) =~= seq![
        ("expression"@, JsonView::Str(expression@)),
        ("awaitPromise"@, JsonView::Bool(await_promise)),
        ("returnByValue"@, JsonView::Bool(true)),
    ]);
    let params = Json::object(ps);
    let mut es: Vec<(String, Json)> = Vec::new();
    push_entry(&mut es, "id", Json::Number(JsonNumber::PosInt(2)));
    push_entry(&mut es, "method", Json::from_str("Runtime.evaluate"));
    push_entry(&mut es, "params", params);
    assert(entry_views(es@) =~= seq![
        ("id"@, JsonView::PosInt(2)),
        ("method"@, JsonView::Str("Runtime.evaluate"@)),
        (
            "params"@,
            JsonView::Object(
                seq![
                    ("expression"@, JsonView::Str(expression@)),
                    ("awaitPromise"@, JsonView::Bool(await_promise)),
                    ("returnByValue"@, JsonView::Bool(true)),
                ],
            ),
        ),
    ]);
    Json::object(es)
}

/// How a CDP reply relates to the `Runtime.evaluate` request (id 2).
pub enum EvalReply<'a> {
    /// Another message (event or other id): keep reading.
    NotOurs,
    /// The script threw; the exception details.
    Exception(&'a Json),
    /// The script's value (`result.result.value`), when present.
    Value(Option<&'a Json>),
}

/// Classifies a CDP reply to the evaluate request: a reply whose `id` is not
/// 2 is not ours; ours carries either `result.exceptionDetails` or the value
/// at `result.result.value`.
pub fn evaluate_reply<'a>(v: &'a Json) -> (r: EvalReply<'a>)
    ensures
        view_get_u64(v@, "id"@) != Some(2u64) ==> r is NotOurs,
        view_get_u64(v@, "id"@) == Some(2u64) ==> match view_get(v@, "result"@) {
            Some(res) => match view_get(res, "exceptionDetails"@) {
                Some(exc) => r matches EvalReply::Exception(e) && e@ == exc,
                None => r matches EvalReply::Value(x) && opt_jview(x) == (match view_get(
                    res,
                    "result"@,
                ) {
                    Some(inner) => view_get(inner, "value"@),
                    None => None,
                }),
            },
            None => r matches EvalReply::Value(x) && x is None,
        },
{
    let id = match v.get("id") {
        Some(i) => i.as_u64(),
        None => None,
    };
    match id {
        Some(2) => {},
        _ => {
            return EvalReply::NotOurs;
        },
    }
    match v.get("result") {
        Some(res) => match res.get("exceptionDetails") {
            Some(exc) => EvalReply::Exception(exc),
            None => match res.get("result") {
                Some(inner) => EvalReply::Value(inner.get("value")),
                None => EvalReply::Value(None),
            },
        },
        None => EvalReply::Value(None),
    }
}


/// An optional text as the read script reports it: trimmed and not blank.
pub open spec fn clean_text(o: Option<Seq<char>>) -> bool {
    match o {
        Some(s) => s.len() > 0 && trim_view(s) == s,
        None => true,
    }
}

/// Metadata as the read script can report it: trimmed non-blank texts, no
/// empty usage, and not blank overall.
pub open spec fn clean_metadata(m: MetadataView) -> bool {
    &&& !metadata_is_empty(m)
    &&& clean_text(m.model)
    &&& clean_text(m.provider)
    &&& clean_text(m.finish_reason)
    &&& match m.usage {
        Some(u) => !usage_is_empty(u),
        None => true,
    }
}

pub(crate) proof fn lemma_str_entry_get(key: Seq<char>, o: Option<Seq<char>>, k: Seq<char>)
    ensures
        entries_get(str_entry(key, o), k) == (match o {
            Some(v) => if key == k {
                Some(JsonView::Str(v))
            } else {
                None
            },
            None => None,
        }),
{
    match o {
        Some(v) => lemma_entries_get_single(key, JsonView::Str(v), k),
        None => {},
    }
}

pub(crate) proof fn lemma_num_entry_get(key: Seq<char>, o: Option<u64>, k: Seq<char>)
    ensures
        entries_get(num_entry(key, o), k) == (match o {
            Some(n) => if key == k {
                Some(JsonView::PosInt(n))
            } else {
                None
            },
            None => None,
        }),
{
    match o {
        Some(n) => lemma_entries_get_single(key, JsonView::PosInt(n), k),
        None => {},
    }
}

pub(crate) proof fn lemma_usage_roundtrip(u: TokenUsage)
    ensures
        usage_from_json(usage_json(u)) == u,
        view_get(usage_json(u), "inputTokens"@) == opt_num_json(u.input_tokens),
        view_get(usage_json(u), "outputTokens"@) == opt_num_json(u.output_tokens),
        view_get(usage_json(u), "totalTokens"@) == opt_num_json(u.total_tokens),
        view_get(usage_json(u), "reasoningTokens"@) == opt_num_json(u.reasoning_tokens),
        view_get(usage_json(u), "cachedInputTokens"@) == opt_num_json(u.cached_input_tokens),
{
    reveal_strlit("inputTokens");
    assert("inputTokens"@.len() == 11);
    reveal_strlit("outputTokens");
    assert("outputTokens"@.len() == 12);
    reveal_strlit("totalTokens");
    assert("totalTokens"@.len() == 11);
    reveal_strlit("reasoningTokens");
    assert("reasoningTokens"@.len() == 15);
    reveal_strlit("cachedInputTokens");
    assert("cachedInputTokens"@.len() == 17);
    assert("inputTokens"@[0] != "totalTokens"@[0]);
    let e1 = num_entry("inputTokens"@, u.input_tokens);
    let e2 = num_entry("outputTokens"@, u.output_tokens);
    let e3 = num_entry("totalTokens"@, u.total_tokens);
    let e4 = num_entry("reasoningTokens"@, u.reasoning_tokens);
    let e5 = num_entry("cachedInputTokens"@, u.cached_input_tokens);
    let es = e1 + e2 + e3 + e4 + e5;
    assert(entries_get(es, "inputTokens"@) == (match u.input_tokens {
        Some(n) => Some(JsonView::PosInt(n)),
        None => None::<JsonView>,
    })) by {
        lemma_entries_get_concat(e1 + e2 + e3 + e4, e5, "inputTokens"@);
        lemma_entries_get_concat(e1 + e2 + e3, e4, "inputTokens"@);
        lemma_entries_get_concat(e1 + e2, e3, "inputTokens"@);
        lemma_entries_get_concat(e1, e2, "inputTokens"@);
        lemma_num_entry_get("inputTokens"@, u.input_tokens, "inputTokens"@);
        lemma_num_entry_get("outputTokens"@, u.output_tokens, "inputTokens"@);
        lemma_num_entry_get("totalTokens"@, u.total_tokens, "inputTokens"@);
        lemma_num_entry_get("reasoningTokens"@, u.reasoning_tokens, "inputTokens"@);
        lemma_num_entry_get("cachedInputTokens"@, u.cached_input_tokens, "inputTokens"@);
    }
    assert(entries_get(es, "outputTokens"@) == (match u.output_tokens {
        Some(n) => Some(JsonView::PosInt(n)),
        None => None::<JsonView>,
    })) by {
        lemma_entries_get_concat(e1 + e2 + e3 + e4, e5, "outputTokens"@);
        lemma_entries_get_concat(e1 + e2 + e3, e4, "outputTokens"@);
        lemma_entries_get_concat(e1 + e2, e3, "outputTokens"@);
        lemma_entries_get_concat(e1, e2, "outputTokens"@);
        lemma_num_entry_get("inputTokens"@, u.input_tokens, "outputTokens"@);
        lemma_num_entry_get("outputTokens"@, u.output_tokens, "outputTokens"@);
        lemma_num_entry_get("totalTokens"@, u.total_tokens, "outputTokens"@);
        lemma_num_entry_get("reasoningTokens"@, u.reasoning_tokens, "outputTokens"@);
        lemma_num_entry_get("cachedInputTokens"@, u.cached_input_tokens, "outputTokens"@);
    }
    assert(entries_get(es, "totalTokens"@) == (match u.total_tokens {
        Some(n) => Some(JsonView::PosInt(n)),
        None => None::<JsonView>,
    })) by {
        lemma_entries_get_concat(e1 + e2 + e3 + e4, e5, "totalTokens"@);
        lemma_entries_get_concat(e1 + e2 + e3, e4, "totalTokens"@);
        lemma_entries_get_concat(e1 + e2, e3, "totalTokens"@);
        lemma_entries_get_concat(e1, e2, "totalTokens"@);
        lemma_num_entry_get("inputTokens"@, u.input_tokens, "totalTokens"@);
        lemma_num_entry_get("outputTokens"@, u.output_tokens, "totalTokens"@);
        lemma_num_entry_get("totalTokens"@, u.total_tokens, "totalTokens"@);
        lemma_num_entry_get("reasoningTokens"@, u.reasoning_tokens, "totalTokens"@);
        lemma_num_entry_get("cachedInputTokens"@, u.cached_input_tokens, "totalTokens"@);
    }
    assert(entries_get(es, "reasoningTokens"@) == (match u.reasoning_tokens {
        Some(n) => Some(JsonView::PosInt(n)),
        None => None::<JsonView>,
    })) by {
        lemma_entries_get_concat(e1 + e2 + e3 + e4, e5, "reasoningTokens"@);
        lemma_entries_get_concat(e1 + e2 + e3, e4, "reasoningTokens"@);
        lemma_entries_get_concat(e1 + e2, e3, "reasoningTokens"@);
        lemma_entries_get_concat(e1, e2, "reasoningTokens"@);
        lemma_num_entry_get("inputTokens"@, u.input_tokens, "reasoningTokens"@);
        lemma_num_entry_get("outputTokens"@, u.output_tokens, "reasoningTokens"@);
        lemma_num_entry_get("totalTokens"@, u.total_tokens, "reasoningTokens"@);
        lemma_num_entry_get("reasoningTokens"@, u.reasoning_tokens, "reasoningTokens"@);
        lemma_num_entry_get("cachedInputTokens"@, u.cached_input_tokens, "reasoningTokens"@);
    }
    assert(entries_get(es, "cachedInputTokens"@) == (match u.cached_input_tokens {
        Some(n) => Some(JsonView::PosInt(n)),
        None => None::<JsonView>,
    })) by {
        lemma_entries_get_concat(e1 + e2 + e3 + e4, e5, "cachedInputTokens"@);
        lemma_entries_get_concat(e1 + e2 + e3, e4, "cachedInputTokens"@);
        lemma_entries_get_concat(e1 + e2, e3, "cachedInputTokens"@);
        lemma_entries_get_concat(e1, e2, "cachedInputTokens"@);
        lemma_num_entry_get("inputTokens"@, u.input_tokens, "cachedInputTokens"@);
        lemma_num_entry_get("outputTokens"@, u.output_tokens, "cachedInputTokens"@);
        lemma_num_entry_get("totalTokens"@, u.total_tokens, "cachedInputTokens"@);
        lemma_num_entry_get("reasoningTokens"@, u.reasoning_tokens, "cachedInputTokens"@);
        lemma_num_entry_get("cachedInputTokens"@, u.cached_input_tokens, "cachedInputTokens"@);
    }
}

/// Writing metadata for the import script and reading it back as the read
/// script reports it gives the same metadata, for every metadata the read
/// side can produce.
pub proof fn lemma_metadata_roundtrip(m: MetadataView)
    requires
        clean_metadata(m),
    ensures
        parse_metadata_view(metadata_json(m)) == Some(m),
{
    reveal_strlit("model");
    assert("model"@.len() == 5);
    reveal_strlit("provider");
    assert("provider"@.len() == 8);
    reveal_strlit("firstTokenLatency");
    assert("firstTokenLatency"@.len() == 17);
    reveal_strlit("finishReason");
    assert("finishReason"@.len() == 12);
    reveal_strlit("usage");
    assert("usage"@.len() == 5);
    assert("usage"@[0] != "model"@[0]);
    let e1 = str_entry("model"@, m.model);
    let e2 = str_entry("provider"@, m.provider);
    let e3 = num_entry("firstTokenLatency"@, m.first_token_latency_ms);
    let e4 = str_entry("finishReason"@, m.finish_reason);
    let e5 = usage_entry(m.usage);
    let es = e1 + e2 + e3 + e4 + e5;
    let j = metadata_json(m);
    assert(j == JsonView::Object(es));
    assert(entries_get(es, "model"@) == (match m.model { Some(v) => Some(JsonView::Str(v)), None => None::<JsonView> })) by {
        lemma_entries_get_concat(e1 + e2 + e3 + e4, e5, "model"@);
        lemma_entries_get_concat(e1 + e2 + e3, e4, "model"@);
        lemma_entries_get_concat(e1 + e2, e3, "model"@);
        lemma_entries_get_concat(e1, e2, "model"@);
        lemma_str_entry_get("model"@, m.model, "model"@);
        lemma_str_entry_get("provider"@, m.provider, "model"@);
        lemma_num_entry_get("firstTokenLatency"@, m.first_token_latency_ms, "model"@);
        lemma_str_entry_get("finishReason"@, m.finish_reason, "model"@);
        match m.usage {
            Some(u) => if !usage_is_empty(u) {
                lemma_entries_get_single("usage"@, usage_json(u), "model"@);
            },
            None => {},
        }
    }
    assert(entries_get(es, "provider"@) == (match m.provider { Some(v) => Some(JsonView::Str(v)), None => None::<JsonView> })) by {
        lemma_entries_get_concat(e1 + e2 + e3 + e4, e5, "provider"@);
        lemma_entries_get_concat(e1 + e2 + e3, e4, "provider"@);
        lemma_entries_get_concat(e1 + e2, e3, "provider"@);
        lemma_entries_get_concat(e1, e2, "provider"@);
        lemma_str_entry_get("model"@, m.model, "provider"@);
        lemma_str_entry_get("provider"@, m.provider, "provider"@);
        lemma_num_entry_get("firstTokenLatency"@, m.first_token_latency_ms, "provider"@);
        lemma_str_entry_get("finishReason"@, m.finish_reason, "provider"@);
        match m.usage {
            Some(u) => if !usage_is_empty(u) {
                lemma_entries_get_single("usage"@, usage_json(u), "provider"@);
            },
            None => {},
        }
    }
    assert(entries_get(es, "firstTokenLatency"@) == (match m.first_token_latency_ms { Some(n) => Some(JsonView::PosInt(n)), None => None::<JsonView> })) by {
        lemma_entries_get_concat(e1 + e2 + e3 + e4, e5, "firstTokenLatency"@);
        lemma_entries_get_concat(e1 + e2 + e3, e4, "firstTokenLatency"@);
        lemma_entries_get_concat(e1 + e2, e3, "firstTokenLatency"@);
        lemma_entries_get_concat(e1, e2, "firstTokenLatency"@);
        lemma_str_entry_get("model"@, m.model, "firstTokenLatency"@);
        lemma_str_entry_get("provider"@, m.provider, "firstTokenLatency"@);
        lemma_num_entry_get("firstTokenLatency"@, m.first_token_latency_ms, "firstTokenLatency"@);
        lemma_str_entry_get("finishReason"@, m.finish_reason, "firstTokenLatency"@);
        match m.usage {
            Some(u) => if !usage_is_empty(u) {
                lemma_entries_get_single("usage"@, usage_json(u), "firstTokenLatency"@);
            },
            None => {},
        }
    }
    assert(entries_get(es, "finishReason"@) == (match m.finish_reason { Some(v) => Some(JsonView::Str(v)), None => None::<JsonView> })) by {
        lemma_entries_get_concat(e1 + e2 + e3 + e4, e5, "finishReason"@);
        lemma_entries_get_concat(e1 + e2 + e3, e4, "finishReason"@);
        lemma_entries_get_concat(e1 + e2, e3, "finishReason"@);
        lemma_entries_get_concat(e1, e2, "finishReason"@);
        lemma_str_entry_get("model"@, m.model, "finishReason"@);
        lemma_str_entry_get("provider"@, m.provider, "finishReason"@);
        lemma_num_entry_get("firstTokenLatency"@, m.first_token_latency_ms, "finishReason"@);
        lemma_str_entry_get("finishReason"@, m.finish_reason, "finishReason"@);
        match m.usage {
            Some(u) => if !usage_is_empty(u) {
                lemma_entries_get_single("usage"@, usage_json(u), "finishReason"@);
            },
            None => {},
        }
    }
    assert(entries_get(es, "usage"@) == (match m.usage { Some(u) => if usage_is_empty(u) { None::<JsonView> } else { Some(usage_json(u)) }, None => None::<JsonView> })) by {
        lemma_entries_get_concat(e1 + e2 + e3 + e4, e5, "usage"@);
        lemma_entries_get_concat(e1 + e2 + e3, e4, "usage"@);
        lemma_entries_get_concat(e1 + e2, e3, "usage"@);
        lemma_entries_get_concat(e1, e2, "usage"@);
        lemma_str_entry_get("model"@, m.model, "usage"@);
        lemma_str_entry_get("provider"@, m.provider, "usage"@);
        lemma_num_entry_get("firstTokenLatency"@, m.first_token_latency_ms, "usage"@);
        lemma_str_entry_get("finishReason"@, m.finish_reason, "usage"@);
        match m.usage {
            Some(u) => if !usage_is_empty(u) {
                lemma_entries_get_single("usage"@, usage_json(u), "usage"@);
            },
            None => {},
        }
    }
    match m.usage {
        Some(u) => lemma_usage_roundtrip(u),
        None => {},
    }
    let parsed = MetadataView {
        model: meta_text(j, "model"@),
        provider: meta_text(j, "provider"@),
        usage: meta_usage(j),
        first_token_latency_ms: view_get_u64(j, "firstTokenLatency"@),
        finish_reason: meta_text(j, "finishReason"@),
    };
    assert(parsed == m);
}


/// Reading back a role's wire name gives the role.
pub proof fn lemma_role_roundtrip(r: Role)
    ensures
        parse_role_view(role_name(r)) == r,
{
    reveal_strlit("system");
    reveal_strlit("assistant");
    reveal_strlit("tool");
    reveal_strlit("user");
    assert("system"@.len() == 6);
    assert("assistant"@.len() == 9);
    assert("tool"@.len() == 4);
    assert("user"@.len() == 4);
    assert("user"@[0] != "tool"@[0]);
}

/// The text one ChatBox content part contributes to a message's text view:
/// the text of a text or reasoning part, the image placeholder for an image
/// (stored as an image or not), the tool-call placeholder for a tool call,
/// nothing for any other part.
pub open spec fn chatbox_part_text(p: JsonView) -> Seq<char> {
    let ty = view_get_str(p, "type"@);
    if ty == Some("text"@) || ty == Some("reasoning"@) {
        match view_get_str(p, "text"@) {
            Some(t) => t,
            None => Seq::empty(),
        }
    } else if ty == Some("image"@) {
        image_placeholder_view()
    } else if ty == Some("tool-call"@) {
        tool_call_placeholder()
    } else {
        Seq::empty()
    }
}

/// The in-order concatenation of what each part contributes.
pub open spec fn chatbox_parts_text(ps: Seq<JsonView>) -> Seq<char>
    decreases ps.len(),
{
    if ps.len() == 0 {
        Seq::empty()
    } else {
        chatbox_parts_text(ps.drop_last()) + chatbox_part_text(ps.last())
    }
}

/// Appending text to a block list appends it to the list's text view.
proof fn lemma_parts_text_push_text(res: Seq<PartView>, t: Seq<char>)
    ensures
        parts_text(push_text_view(res, t)) == parts_text(res) + t,
{
    if t.len() == 0 {
        assert(parts_text(res) + t =~= parts_text(res));
    } else if res.len() > 0 && res.last() is Text {
        let r2 = push_text_view(res, t);
        assert(r2.drop_last() =~= res.drop_last());
        assert(parts_text(res) == parts_text(res.drop_last()) + res.last()->Text_0);
        assert(parts_text(r2) =~= parts_text(res) + t);
    } else {
        let r2 = res.push(PartView::Text(t));
        assert(r2.drop_last() =~= res);
    }
}

/// One part's step adds exactly that part's text to the text view.
proof fn lemma_chatbox_part_step_text(res: Seq<PartView>, p: JsonView)
    ensures
        parts_text(chatbox_part_step(res, p)) == parts_text(res) + chatbox_part_text(p),
{
    let ty = view_get_str(p, "type"@);
    if ty == Some("text"@) || ty == Some("reasoning"@) {
        match view_get_str(p, "text"@) {
            Some(t) => lemma_parts_text_push_text(res, t),
            None => assert(parts_text(res) + Seq::<char>::empty() =~= parts_text(res)),
        }
    } else if ty == Some("image"@) {
        match view_get_str(p, "url"@) {
            Some(u) => if u.len() > 0 {
                let r2 = res.push(PartView::Image { url: u, detail: None });
                assert(r2.drop_last() =~= res);
            } else {
                lemma_parts_text_push_text(res, image_placeholder_view());
            },
            None => lemma_parts_text_push_text(res, image_placeholder_view()),
        }
    } else if ty == Some("tool-call"@) {
        lemma_parts_text_push_text(res, tool_call_placeholder());
    } else {
        assert(parts_text(res) + Seq::<char>::empty() =~= parts_text(res));
    }
}

/// No text is lost in converting ChatBox content parts: the text view of the
/// converted content is the in-order concatenation of every text and
/// reasoning part's text, the image placeholder for each image part and the
/// tool-call placeholder for each tool-call part.
pub proof fn lemma_chatbox_content_keeps_all_text(ps: Seq<JsonView>)
    ensures
        content_text(chatbox_content_view(JsonView::Array(ps))) == chatbox_parts_text(ps),
        parts_text(chatbox_parts_fold(ps)) == chatbox_parts_text(ps),
    decreases ps.len(),
{
    if ps.len() > 0 {
        lemma_chatbox_content_keeps_all_text(ps.drop_last());
        lemma_chatbox_part_step_text(chatbox_parts_fold(ps.drop_last()), ps.last());
    }
}

/// The image a ChatBox content part is kept as: the `url` of an image part
/// when it is a non-empty string; no image for any other part.
pub open spec fn chatbox_part_image(p: JsonView) -> Seq<Seq<char>> {
    if view_get_str(p, "type"@) == Some("image"@) {
        match view_get_str(p, "url"@) {
            Some(u) => if u.len() > 0 {
                seq![u]
            } else {
                Seq::empty()
            },
            None => Seq::empty(),
        }
    } else {
        Seq::empty()
    }
}

/// The images of a ChatBox part list, in order.
pub open spec fn chatbox_parts_images(ps: Seq<JsonView>) -> Seq<Seq<char>>
    decreases ps.len(),
{
    if ps.len() == 0 {
        Seq::empty()
    } else {
        chatbox_parts_images(ps.drop_last()) + chatbox_part_image(ps.last())
    }
}

/// The urls of the image blocks of a block list, in order.
pub open spec fn part_image_urls(r: Seq<PartView>) -> Seq<Seq<char>>
    decreases r.len(),
{
    if r.len() == 0 {
        Seq::empty()
    } else {
        part_image_urls(r.drop_last()) + match r.last() {
            PartView::Image { url, .. } => seq![url],
            PartView::Text(_) => Seq::empty(),
        }
    }
}

/// A block list holds an image exactly when it has an image url.
proof fn lemma_parts_have_image_urls(r: Seq<PartView>)
    ensures
        parts_have_image(r) <==> part_image_urls(r).len() > 0,
    decreases r.len(),
{
    if r.len() > 0 {
        let d = r.drop_last();
        lemma_parts_have_image_urls(d);
        if parts_have_image(d) {
            let i = choose|i: int| 0 <= i < d.len() && is_image_part(#[trigger] d[i]);
            assert(r[i] == d[i]);
            assert(is_image_part(r[i]));
        }
        if parts_have_image(r) && !(r.last() is Image) {
            let i = choose|i: int| 0 <= i < r.len() && is_image_part(#[trigger] r[i]);
            assert(i < d.len());
            assert(d[i] == r[i]);
            assert(is_image_part(d[i]));
        }
        if r.last() is Image {
            assert(is_image_part(r[r.len() - 1]));
        }
    }
}

/// Appending text adds no image.
proof fn lemma_push_text_keeps_images(res: Seq<PartView>, t: Seq<char>)
    ensures
        part_image_urls(push_text_view(res, t)) == part_image_urls(res),
{
    if t.len() == 0 {
    } else if res.len() > 0 && res.last() is Text {
        let r2 = push_text_view(res, t);
        assert(r2.drop_last() =~= res.drop_last());
    } else {
        let r2 = res.push(PartView::Text(t));
        assert(r2.drop_last() =~= res);
        assert(part_image_urls(r2) =~= part_image_urls(res));
    }
}

/// One part's step adds exactly that part's image.
proof fn lemma_chatbox_part_step_images(res: Seq<PartView>, p: JsonView)
    ensures
        part_image_urls(chatbox_part_step(res, p)) == part_image_urls(res) + chatbox_part_image(p),
{
    reveal_strlit("text");
    reveal_strlit("reasoning");
    reveal_strlit("image");
    reveal_strlit("tool-call");
    assert("text"@.len() == 4);
    assert("image"@.len() == 5);
    assert("reasoning"@.len() == 9);
    assert("tool-call"@.len() == 9);
    assert("tool-call"@[0] != "image"@[0]);
    let ty = view_get_str(p, "type"@);
    let e = Seq::<Seq<char>>::empty();
    if ty == Some("text"@) || ty == Some("reasoning"@) {
        match view_get_str(p, "text"@) {
            Some(t) => lemma_push_text_keeps_images(res, t),
            None => {},
        }
        assert(part_image_urls(res) + e =~= part_image_urls(res));
    } else if ty == Some("image"@) {
        match view_get_str(p, "url"@) {
            Some(u) => if u.len() > 0 {
                let r2 = res.push(PartView::Image { url: u, detail: None });
                assert(r2.drop_last() =~= res);
            } else {
                lemma_push_text_keeps_images(res, image_placeholder_view());
                assert(part_image_urls(res) + e =~= part_image_urls(res));
            },
            None => {
                lemma_push_text_keeps_images(res, image_placeholder_view());
                assert(part_image_urls(res) + e =~= part_image_urls(res));
            },
        }
    } else if ty == Some("tool-call"@) {
        lemma_push_text_keeps_images(res, tool_call_placeholder());
        assert(part_image_urls(res) + e =~= part_image_urls(res));
    } else {
        assert(part_image_urls(res) + e =~= part_image_urls(res));
    }
}

/// Converted ChatBox content keeps, in order, one image block for each image
/// part with a non-empty `url`, and no other image; no image block carries a
/// detail level; the content stays a block list exactly when there is such
/// an image.
pub proof fn lemma_chatbox_content_keeps_images(ps: Seq<JsonView>)
    ensures
        part_image_urls(chatbox_parts_fold(ps)) == chatbox_parts_images(ps),
        forall|i: int|
            0 <= i < chatbox_parts_fold(ps).len() && #[trigger] chatbox_parts_fold(ps)[i] is Image
                ==> chatbox_parts_fold(ps)[i]->detail is None,
        chatbox_content_view(JsonView::Array(ps)) is Parts <==> chatbox_parts_images(ps).len() > 0,
    decreases ps.len(),
{
    if ps.len() > 0 {
        let prev = chatbox_parts_fold(ps.drop_last());
        lemma_chatbox_content_keeps_images(ps.drop_last());
        lemma_chatbox_part_step_images(prev, ps.last());
        let r = chatbox_parts_fold(ps);
        assert forall|i: int| 0 <= i < r.len() && #[trigger] r[i] is Image implies r[i]->detail
            is None by {
            if i < prev.len() {
                assert(prev[i] is Image ==> prev[i]->detail is None);
            }
        }
    }
    lemma_parts_have_image_urls(chatbox_parts_fold(ps));
}

/// ChatBox content keeps its blocks exactly when one of them is an image;
/// otherwise it is plain text.
pub proof fn lemma_chatbox_content_shape(parts: JsonView)
    ensures
        content_has_image_view(chatbox_content_view(parts)) <==> chatbox_content_view(parts) is Parts,
{
}

/// Whether a content view holds an image.
pub open spec fn content_has_image_view(c: ContentView) -> bool {
    crate::message::content_has_image(c)
}

} // verus!
