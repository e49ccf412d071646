//! ContextSend: share chat-AI conversation context between paired devices on a LAN.

pub mod text;
pub mod message;

pub use message::{
    ChatMessage, ContentPart, Conversation, ImageUrl, MessageContent, MessageMetadata, Role,
    TokenUsage,
};
pub mod json;
pub mod error;

pub use error::{AdapterError, CoreError, NetworkError};
pub mod chatbox;
pub mod openai;
pub mod config;
pub mod jan;
pub mod matching;
pub mod crypto;
pub mod identity;
pub mod naming;
pub mod wire;
pub mod pairing;
pub mod discovery;
pub mod service;
pub mod adapters;
pub mod ui;
