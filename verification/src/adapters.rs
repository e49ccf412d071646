//! The registry of built-in application adapters (Jan, ChatBox) and the
//! lookup of an adapter by name.

use vstd::prelude::*;
use vstd::string::*;

use crate::error::AdapterError;
use crate::jan::JanAdapter;
use crate::json::str_eq;
use crate::message::Conversation;
use crate::text::{ascii_lower_view, to_ascii_lowercase};

verus! {

broadcast use vstd::string::group_string_axioms;

/// The ChatBox adapter. ChatBox keeps its sessions in Chromium IndexedDB,
/// reached only through the DevTools protocol, so the synchronous reading
/// and importing entry points are not implemented; the asynchronous ones are
/// in the application.
pub struct ChatBoxAdapter;

impl ChatBoxAdapter {
    /// The application name.
    pub fn app_name(&self) -> (s: &'static str)
        ensures
            s@ == "ChatBox"@,
    {
        "ChatBox"
    }

    /// Synchronous listing is not available for ChatBox.
    pub fn list_conversations(&self) -> (r: Result<Vec<Conversation>, AdapterError>)
        ensures
            r matches Err(e) && e is NotImplemented,
    {
        Err(AdapterError::NotImplemented)
    }

    /// Synchronous import is not available for ChatBox.
    pub fn import_conversation(&self, _convo: &Conversation) -> (r: Result<String, AdapterError>)
        ensures
            r matches Err(e) && e is NotImplemented,
    {
        Err(AdapterError::NotImplemented)
    }
}

/// A built-in adapter.
#[derive(Debug, Clone, Copy, PartialEq, Eq, Structural)]
pub enum BuiltinAdapter {
    Jan,
    ChatBox,
}

/// The application name of a built-in adapter.
pub open spec fn adapter_name_view(a: BuiltinAdapter) -> Seq<char> {
    match a {
        BuiltinAdapter::Jan => "Jan"@,
        BuiltinAdapter::ChatBox => "ChatBox"@,
    }
}

impl BuiltinAdapter {
    /// The application name.
    pub fn app_name(&self) -> (s: &'static str)
        ensures
            s@ == adapter_name_view(*self),
    {
        match self {
            BuiltinAdapter::Jan => JanAdapter.app_name(),
            BuiltinAdapter::ChatBox => ChatBoxAdapter.app_name(),
        }
    }
}

/// The names of all built-in adapters: `Jan`, then `ChatBox`.
pub fn builtin_adapter_names() -> (r: Vec<&'static str>)
    ensures
        r@.len() == 2,
        r@[0]@ == "Jan"@,
        r@[1]@ == "ChatBox"@,
{
    let mut v: Vec<&'static str> = Vec::new();
    v.push(JanAdapter.app_name());
    v.push(ChatBoxAdapter.app_name());
    v
}

/// The adapter a name selects (ASCII case ignored), or `UnknownAdapter`
/// with the lower-cased name.
pub open spec fn adapter_by_name_view(name: Seq<char>) -> Option<BuiltinAdapter> {
    let lower = ascii_lower_view(name);
    if lower == "jan"@ {
        Some(BuiltinAdapter::Jan)
    } else if lower == "chatbox"@ {
        Some(BuiltinAdapter::ChatBox)
    } else {
        None
    }
}

/// Looks an adapter up by application name, ignoring ASCII case.
pub fn adapter_by_name(name: &str) -> (r: Result<BuiltinAdapter, AdapterError>)
    ensures
        match adapter_by_name_view(name@) {
            Some(a) => r == Ok::<BuiltinAdapter, AdapterError>(a),
            None => (r matches Err(AdapterError::UnknownAdapter(n)) && n@ == ascii_lower_view(
                name@,
            )),
        },
{
    let lower = to_ascii_lowercase(name);
    if str_eq(lower.as_str(), "jan") {
        Ok(BuiltinAdapter::Jan)
    } else if str_eq(lower.as_str(), "chatbox") {
        Ok(BuiltinAdapter::ChatBox)
    } else {
        Err(AdapterError::UnknownAdapter(lower))
    }
}

} // verus!
