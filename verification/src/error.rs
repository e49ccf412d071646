//! Error types of the library, each with the message the user is shown.

use vstd::prelude::*;
use vstd::string::*;

use crate::text::{decimal_view, u64_to_decimal};

verus! {

broadcast use vstd::string::group_string_axioms;

/// Errors of the application adapters.
#[derive(Debug)]
pub enum AdapterError {
    /// The operation is not implemented for this adapter.
    NotImplemented,
    /// The application's data folder was not found.
    AppNotFound,
    /// No adapter has this name.
    UnknownAdapter(String),
    /// The snippet is shorter than the given number of characters.
    SnippetTooShort(usize),
    /// A file could not be read or written.
    Io(String),
    /// A document could not be (de)serialized.
    Json(String),
    /// An error of the conversation core.
    Core(String),
    /// Talking to ChatBox failed.
    ChatBox(String),
}

/// Errors of the network layer.
#[derive(Debug)]
pub enum NetworkError {
    Io(String),
    Protocol(String),
    Crypto(String),
    Mdns(String),
    InvalidName(String),
    Serde(String),
}

/// Errors of the conversation core.
#[derive(Debug)]
pub enum CoreError {
    Serde(String),
}

/// The message of an adapter error.
pub open spec fn adapter_error_text(e: AdapterError) -> Seq<char> {
    match e {
        AdapterError::NotImplemented => "尚未实现"@,
        AdapterError::AppNotFound => "未找到应用数据目录"@,
        AdapterError::UnknownAdapter(n) => "无此适配器: "@ + n@,
        AdapterError::SnippetTooShort(k) => "内容太短，至少需要 "@ + decimal_view(k as nat)
            + " 个字符才能可靠匹配"@,
        AdapterError::Io(m) => "文件读写失败: "@ + m@,
        AdapterError::Json(m) => "序列化/反序列化失败: "@ + m@,
        AdapterError::Core(m) => "核心错误: "@ + m@,
        AdapterError::ChatBox(m) => "ChatBox 导入失败: "@ + m@,
    }
}

/// The message of a network error.
pub open spec fn network_error_text(e: NetworkError) -> Seq<char> {
    match e {
        NetworkError::Io(m) => "IO 错误: "@ + m@,
        NetworkError::Protocol(m) => "协议错误: "@ + m@,
        NetworkError::Crypto(m) => "加解密错误: "@ + m@,
        NetworkError::Mdns(m) => "mDNS 错误: "@ + m@,
        NetworkError::InvalidName(m) => "无效的设备名: "@ + m@,
        NetworkError::Serde(m) => "序列化错误: "@ + m@,
    }
}

/// The message of a core error.
pub open spec fn core_error_text(e: CoreError) -> Seq<char> {
    match e {
        CoreError::Serde(m) => "序列化/反序列化失败: "@ + m@,
    }
}

/// `prefix` followed by `rest`.
fn prefixed(prefix: &str, rest: &str) -> (s: String)
    ensures
        s@ == prefix@ + rest@,
{
    let mut s = String::from_str(prefix);
    s.append(rest);
    s
}

impl AdapterError {
    /// The message shown to the user.
    pub fn message(&self) -> (s: String)
        ensures
            s@ == adapter_error_text(*self),
    {
        match self {
            AdapterError::NotImplemented => String::from_str("尚未实现"),
            AdapterError::AppNotFound => String::from_str("未找到应用数据目录"),
            AdapterError::UnknownAdapter(n) => prefixed("无此适配器: ", n.as_str()),
            AdapterError::SnippetTooShort(k) => {
                let d = u64_to_decimal(*k as u64);
                let mut s = prefixed("内容太短，至少需要 ", d.as_str());
                s.append(" 个字符才能可靠匹配");
                s
            },
            AdapterError::Io(m) => prefixed("文件读写失败: ", m.as_str()),
            AdapterError::Json(m) => prefixed("序列化/反序列化失败: ", m.as_str()),
            AdapterError::Core(m) => prefixed("核心错误: ", m.as_str()),
            AdapterError::ChatBox(m) => prefixed("ChatBox 导入失败: ", m.as_str()),
        }
    }
}

impl NetworkError {
    /// The message shown to the user.
    pub fn message(&self) -> (s: String)
        ensures
            s@ == network_error_text(*self),
    {
        match self {
            NetworkError::Io(m) => prefixed("IO 错误: ", m.as_str()),
            NetworkError::Protocol(m) => prefixed("协议错误: ", m.as_str()),
            NetworkError::Crypto(m) => prefixed("加解密错误: ", m.as_str()),
            NetworkError::Mdns(m) => prefixed("mDNS 错误: ", m.as_str()),
            NetworkError::InvalidName(m) => prefixed("无效的设备名: ", m.as_str()),
            NetworkError::Serde(m) => prefixed("序列化错误: ", m.as_str()),
        }
    }
}

impl CoreError {
    /// The message shown to the user.
    pub fn message(&self) -> (s: String)
        ensures
            s@ == core_error_text(*self),
    {
        match self {
            CoreError::Serde(m) => prefixed("序列化/反序列化失败: ", m.as_str()),
        }
    }
}

} // verus!
