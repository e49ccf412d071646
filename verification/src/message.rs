//! Conversation data model, aligned with the OpenAI Chat Completion shape.
//!
//! A [`ChatMessage`] has a [`Role`] and a [`MessageContent`], which is either
//! plain text or a list of [`ContentPart`]s (text and images). A
//! [`Conversation`] is an ordered list of messages with an optional title and
//! model.

use vstd::prelude::*;
use vstd::string::*;

use crate::text::{image_placeholder, image_placeholder_view};

verus! {

/// The author of a message.
#[derive(Debug, Clone, Copy, PartialEq, Eq, Structural)]
pub enum Role {
    System,
    User,
    Assistant,
    Tool,
}

/// The lower-case wire name of a role (`system` / `user` / `assistant` / `tool`).
pub open spec fn role_name(r: Role) -> Seq<char> {
    match r {
        Role::System => "system"@,
        Role::User => "user"@,
        Role::Assistant => "assistant"@,
        Role::Tool => "tool"@,
    }
}

impl Role {
    /// The lower-case wire name of the role.
    pub fn as_str(&self) -> (s: &'static str)
        ensures
            s@ == role_name(*self),
    {
        match self {
            Role::System => "system",
            Role::User => "user",
            Role::Assistant => "assistant",
            Role::Tool => "tool",
        }
    }
}

/// An image reference (`http(s)://` link or `data:` URL).
#[derive(Debug, Clone, PartialEq, Eq)]
pub struct ImageUrl {
    pub url: String,
    /// Detail level (`auto` / `low` / `high`), optional.
    pub detail: Option<String>,
}

/// One block of multi-modal content.
#[derive(Debug, Clone, PartialEq, Eq)]
pub enum ContentPart {
    /// A text block.
    Text { text: String },
    /// An image block.
    ImageUrl { image_url: ImageUrl },
}

/// The content of a message: plain text or a list of blocks.
#[derive(Debug, Clone, PartialEq, Eq)]
pub enum MessageContent {
    Text(String),
    Parts(Vec<ContentPart>),
}

/// Token usage of one message; every field is optional.
#[derive(Debug, Clone, Copy, PartialEq, Eq)]
pub struct TokenUsage {
    pub input_tokens: Option<u64>,
    pub output_tokens: Option<u64>,
    pub total_tokens: Option<u64>,
    pub reasoning_tokens: Option<u64>,
    pub cached_input_tokens: Option<u64>,
}

/// Generation metadata of a message (model, usage, latency, finish reason).
#[derive(Debug, Clone, PartialEq, Eq)]
pub struct MessageMetadata {
    pub model: Option<String>,
    pub provider: Option<String>,
    pub usage: Option<TokenUsage>,
    pub first_token_latency_ms: Option<u64>,
    pub finish_reason: Option<String>,
}

/// One chat message.
#[derive(Debug, Clone, PartialEq, Eq)]
pub struct ChatMessage {
    pub role: Role,
    pub content: MessageContent,
    /// Optional participant name.
    pub name: Option<String>,
    /// Optional generation metadata.
    pub metadata: Option<MessageMetadata>,
}

/// A whole conversation, the unit that is shared between devices.
#[derive(Debug, Clone, PartialEq, Eq)]
pub struct Conversation {
    pub title: Option<String>,
    pub model: Option<String>,
    pub messages: Vec<ChatMessage>,
}

// ---------------------------------------------------------------------------
// Mathematical views
// ---------------------------------------------------------------------------

/// The view of an optional string.
pub open spec fn opt_view(o: Option<String>) -> Option<Seq<char>> {
    match o {
        Some(s) => Some(s@),
        None => None,
    }
}

/// Abstract content block.
pub enum PartView {
    Text(Seq<char>),
    Image { url: Seq<char>, detail: Option<Seq<char>> },
}

/// Abstract message content.
pub enum ContentView {
    Text(Seq<char>),
    Parts(Seq<PartView>),
}

/// Abstract metadata.
pub struct MetadataView {
    pub model: Option<Seq<char>>,
    pub provider: Option<Seq<char>>,
    pub usage: Option<TokenUsage>,
    pub first_token_latency_ms: Option<u64>,
    pub finish_reason: Option<Seq<char>>,
}

/// Abstract message.
pub struct MessageView {
    pub role: Role,
    pub content: ContentView,
    pub name: Option<Seq<char>>,
    pub metadata: Option<MetadataView>,
}

/// Abstract conversation.
pub struct ConversationView {
    pub title: Option<Seq<char>>,
    pub model: Option<Seq<char>>,
    pub messages: Seq<MessageView>,
}

impl View for ContentPart {
    type V = PartView;

    open spec fn view(&self) -> PartView {
        match self {
            ContentPart::Text { text } => PartView::Text(text@),
            ContentPart::ImageUrl { image_url } => PartView::Image {
                url: image_url.url@,
                detail: opt_view(image_url.detail),
            },
        }
    }
}

/// The view of a list of blocks.
pub open spec fn parts_view(parts: Seq<ContentPart>) -> Seq<PartView> {
    parts.map_values(|p: ContentPart| p@)
}

impl View for MessageContent {
    type V = ContentView;

    open spec fn view(&self) -> ContentView {
        match self {
            MessageContent::Text(s) => ContentView::Text(s@),
            MessageContent::Parts(parts) => ContentView::Parts(parts_view(parts@)),
        }
    }
}

impl View for MessageMetadata {
    type V = MetadataView;

    open spec fn view(&self) -> MetadataView {
        MetadataView {
            model: opt_view(self.model),
            provider: opt_view(self.provider),
            usage: self.usage,
            first_token_latency_ms: self.first_token_latency_ms,
            finish_reason: opt_view(self.finish_reason),
        }
    }
}

/// The view of optional metadata.
pub open spec fn opt_metadata_view(m: Option<MessageMetadata>) -> Option<MetadataView> {
    match m {
        Some(md) => Some(md@),
        None => None,
    }
}

impl View for ChatMessage {
    type V = MessageView;

    open spec fn view(&self) -> MessageView {
        MessageView {
            role: self.role,
            content: self.content@,
            name: opt_view(self.name),
            metadata: opt_metadata_view(self.metadata),
        }
    }
}

/// The view of a list of messages.
pub open spec fn messages_view(ms: Seq<ChatMessage>) -> Seq<MessageView> {
    ms.map_values(|m: ChatMessage| m@)
}

impl View for Conversation {
    type V = ConversationView;

    open spec fn view(&self) -> ConversationView {
        ConversationView {
            title: opt_view(self.title),
            model: opt_view(self.model),
            messages: messages_view(self.messages@),
        }
    }
}

// ---------------------------------------------------------------------------
// Text views of content
// ---------------------------------------------------------------------------

/// The text that one block contributes to the text view.
pub open spec fn part_text(p: PartView) -> Seq<char> {
    match p {
        PartView::Text(t) => t,
        PartView::Image { .. } => image_placeholder_view(),
    }
}

/// Concatenated text of a list of blocks, images as placeholders.
pub open spec fn parts_text(parts: Seq<PartView>) -> Seq<char>
    decreases parts.len(),
{
    if parts.len() == 0 {
        Seq::empty()
    } else {
        parts_text(parts.drop_last()) + part_text(parts.last())
    }
}

/// Text view of a message content.
pub open spec fn content_text(c: ContentView) -> Seq<char> {
    match c {
        ContentView::Text(s) => s,
        ContentView::Parts(parts) => parts_text(parts),
    }
}

/// Whether a block is an image.
pub open spec fn is_image_part(p: PartView) -> bool {
    p is Image
}

/// Whether a list of blocks holds an image.
pub open spec fn parts_have_image(parts: Seq<PartView>) -> bool {
    exists|i: int| 0 <= i < parts.len() && is_image_part(#[trigger] parts[i])
}

/// Whether a content holds at least one image block.
pub open spec fn content_has_image(c: ContentView) -> bool {
    match c {
        ContentView::Text(_) => false,
        ContentView::Parts(parts) => parts_have_image(parts),
    }
}

impl MessageContent {
    /// Text view: all text blocks concatenated, each image as the `[图片]`
    /// placeholder.
    pub fn as_text(&self) -> (s: String)
        ensures
            s@ == content_text(self@),
    {
        match self {
            MessageContent::Text(s) => s.clone(),
            MessageContent::Parts(parts) => {
                let mut out = String::new();
                let mut i: usize = 0;
                while i < parts.len()
                    invariant
                        i <= parts@.len(),
                        out@ == parts_text(parts_view(parts@.take(i as int))),
                    decreases parts@.len() - i,
                {
                    match &parts[i] {
                        ContentPart::Text { text } => out.append(text.as_str()),
                        ContentPart::ImageUrl { .. } => {
                            let ph = image_placeholder();
                            out.append(ph.as_str());
                        },
                    }
                    proof {
                        let pv = parts_view(parts@.take(i + 1));
                        assert(pv.drop_last() =~= parts_view(parts@.take(i as int)));
                        assert(pv.last() == parts@[i as int]@);
                    }
                    i = i + 1;
                }
                assert(parts@.take(parts@.len() as int) =~= parts@);
                out
            },
        }
    }

    /// Whether the content holds at least one image block.
    pub fn has_image(&self) -> (b: bool)
        ensures
            b == content_has_image(self@),
    {
        match self {
            MessageContent::Text(_) => false,
            MessageContent::Parts(parts) => {
                let mut i: usize = 0;
                while i < parts.len()
                    invariant
                        i <= parts@.len(),
                        self@ == ContentView::Parts(parts_view(parts@)),
                        forall|k: int| 0 <= k < i ==> !is_image_part(#[trigger] parts_view(parts@)[k]),
                    decreases parts@.len() - i,
                {
                    if let ContentPart::ImageUrl { .. } = &parts[i] {
                        assert(parts_view(parts@)[i as int] == parts@[i as int]@);
                        assert(is_image_part(parts_view(parts@)[i as int]));
                        assert(parts_have_image(parts_view(parts@)));
                        return true;
                    }
                    i = i + 1;
                }
                false
            },
        }
    }
}

impl From<String> for MessageContent {
    fn from(s: String) -> (r: Self) {
        MessageContent::Text(s)
    }
}

impl vstd::std_specs::convert::FromSpecImpl<String> for MessageContent {
    open spec fn obeys_from_spec() -> bool {
        true
    }

    open spec fn from_spec(s: String) -> Self {
        MessageContent::Text(s)
    }
}

// ---------------------------------------------------------------------------
// Usage and metadata
// ---------------------------------------------------------------------------

/// Whether a usage record has no field at all.
pub open spec fn usage_is_empty(u: TokenUsage) -> bool {
    &&& u.input_tokens is None
    &&& u.output_tokens is None
    &&& u.total_tokens is None
    &&& u.reasoning_tokens is None
    &&& u.cached_input_tokens is None
}

/// Whether a metadata record carries nothing: no text field, no latency, and
/// either no usage or an empty one.
pub open spec fn metadata_is_empty(m: MetadataView) -> bool {
    &&& m.model is None
    &&& m.provider is None
    &&& m.first_token_latency_ms is None
    &&& m.finish_reason is None
    &&& match m.usage {
        None => true,
        Some(u) => usage_is_empty(u),
    }
}

impl TokenUsage {
    /// Whether every field is `None`.
    pub fn is_empty(&self) -> (b: bool)
        ensures
            b == usage_is_empty(*self),
    {
        self.input_tokens.is_none() && self.output_tokens.is_none() && self.total_tokens.is_none()
            && self.reasoning_tokens.is_none() && self.cached_input_tokens.is_none()
    }
}

impl Default for TokenUsage {
    fn default() -> (u: Self)
        ensures
            usage_is_empty(u),
    {
        TokenUsage {
            input_tokens: None,
            output_tokens: None,
            total_tokens: None,
            reasoning_tokens: None,
            cached_input_tokens: None,
        }
    }
}

impl MessageMetadata {
    /// Whether the metadata carries nothing worth attaching.
    pub fn is_empty(&self) -> (b: bool)
        ensures
            b == metadata_is_empty(self@),
    {
        let usage_empty = match &self.usage {
            None => true,
            Some(u) => u.is_empty(),
        };
        self.model.is_none() && self.provider.is_none() && self.first_token_latency_ms.is_none()
            && self.finish_reason.is_none() && usage_empty
    }
}

impl Default for MessageMetadata {
    fn default() -> (m: Self)
        ensures
            m@.model is None,
            m@.provider is None,
            m@.usage is None,
            m@.first_token_latency_ms is None,
            m@.finish_reason is None,
    {
        MessageMetadata {
            model: None,
            provider: None,
            usage: None,
            first_token_latency_ms: None,
            finish_reason: None,
        }
    }
}

// ---------------------------------------------------------------------------
// Messages and conversations
// ---------------------------------------------------------------------------

/// Something that can become the text of a message (`&str` or `String`).
pub trait TextInput {
    /// The characters the value stands for.
    spec fn text_view(&self) -> Seq<char>;

    /// Turns the value into an owned string.
    fn into_text(self) -> (s: String)
        ensures
            s@ == self.text_view(),
    ;
}

impl<'a> TextInput for &'a str {
    open spec fn text_view(&self) -> Seq<char> {
        (*self)@
    }

    fn into_text(self) -> (s: String) {
        String::from_str(self)
    }
}

impl TextInput for String {
    open spec fn text_view(&self) -> Seq<char> {
        self@
    }

    fn into_text(self) -> (s: String) {
        self
    }
}

/// A plain-text message with the given role and no name or metadata.
pub open spec fn plain_message(role: Role, text: Seq<char>) -> MessageView {
    MessageView { role, content: ContentView::Text(text), name: None, metadata: None }
}

impl ChatMessage {
    /// A plain-text message with the given role.
    pub fn new<T: TextInput>(role: Role, content: T) -> (m: Self)
        ensures
            m@ == plain_message(role, content.text_view()),
    {
        ChatMessage {
            role,
            content: MessageContent::Text(content.into_text()),
            name: None,
            metadata: None,
        }
    }

    /// A system message.
    pub fn system<T: TextInput>(content: T) -> (m: Self)
        ensures
            m@ == plain_message(Role::System, content.text_view()),
    {
        Self::new(Role::System, content)
    }

    /// A user message.
    pub fn user<T: TextInput>(content: T) -> (m: Self)
        ensures
            m@ == plain_message(Role::User, content.text_view()),
    {
        Self::new(Role::User, content)
    }

    /// An assistant message.
    pub fn assistant<T: TextInput>(content: T) -> (m: Self)
        ensures
            m@ == plain_message(Role::Assistant, content.text_view()),
    {
        Self::new(Role::Assistant, content)
    }

    /// The text view of the message (see [`MessageContent::as_text`]).
    pub fn text(&self) -> (s: String)
        ensures
            s@ == content_text(self@.content),
    {
        self.content.as_text()
    }
}

/// The empty conversation.
pub open spec fn empty_conversation() -> ConversationView {
    ConversationView { title: None, model: None, messages: Seq::empty() }
}

impl Conversation {
    /// An empty conversation.
    pub fn new() -> (c: Self)
        ensures
            c@ == empty_conversation(),
    {
        let c = Conversation { title: None, model: None, messages: Vec::new() };
        assert(messages_view(c.messages@) =~= Seq::<MessageView>::empty());
        c
    }
}

impl Default for Conversation {
    fn default() -> (c: Self)
        ensures
            c@ == empty_conversation(),
    {
        Self::new()
    }
}

} // verus!
