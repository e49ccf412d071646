//! Wire protocol: length-prefixed frames and the handshake / application
//! messages.
//!
//! A frame is a big-endian `u32` length followed by that many payload bytes.
//! The handshake payload is plaintext JSON ([`Hello`]); after pairing, frame
//! payloads are AES-256-GCM ciphertexts of JSON [`AppMessage`]s.

use vstd::prelude::*;
use vstd::string::*;

use crate::crypto::be_u32_view;
use crate::error::NetworkError;
use crate::json::{
    entries_get, jviews, lemma_array_view, lemma_entries_get_single, str_eq, view_get, Json,
    JsonNumber, JsonView,
};
use crate::message::{Conversation, ConversationView};
use crate::chatbox::push_entry;
use crate::json::entry_views;
use crate::openai::{
    conversation_from_json, conversation_json, conversation_to_json, dec_conversation,
    lemma_export_import_roundtrip,
};

verus! {

/// The largest frame payload (16 MiB), against oversized allocations.
pub const MAX_FRAME_LEN: u32 = 16777216;

/// The handshake message: identity and X25519 public key, in the clear.
#[derive(Debug, Clone)]
pub struct Hello {
    /// Protocol version.
    pub version: u8,
    /// Sender's device UUID.
    pub uuid: String,
    /// Sender's display name.
    pub name: String,
    /// Sender's X25519 public key.
    pub pubkey: [u8; 32],
}

/// The protocol version this library speaks.
pub const PROTOCOL_VERSION: u8 = 1;

/// An application message inside an encrypted frame.
#[derive(Debug, Clone)]
pub enum AppMessage {
    /// Pushes a conversation.
    PushConversation(Conversation),
    /// The receiver confirms receipt.
    Ack,
}

/// The big-endian bytes of a `u32`.
pub open spec fn be_bytes_view(n: u32) -> Seq<u8> {
    seq![
        (n / 0x100_0000) as u8,
        ((n / 0x1_0000) % 0x100) as u8,
        ((n / 0x100) % 0x100) as u8,
        (n % 0x100) as u8,
    ]
}

/// A frame around a payload: length prefix, then the payload.
pub open spec fn frame_view(payload: Seq<u8>) -> Seq<u8> {
    be_bytes_view(payload.len() as u32) + payload
}

/// The payload of a complete frame: `None` when the bytes are not one
/// whole frame of an allowed length.
pub open spec fn unframe_view(bytes: Seq<u8>) -> Option<Seq<u8>> {
    if bytes.len() < 4 {
        None
    } else {
        let n = be_u32_view(bytes.take(4));
        if n > MAX_FRAME_LEN || bytes.len() != 4 + n {
            None
        } else {
            Some(bytes.skip(4))
        }
    }
}

/// The length prefix of a payload of `len` bytes; refused above
/// [`MAX_FRAME_LEN`].
pub fn frame_header(len: usize) -> (r: Result<[u8; 4], NetworkError>)
    ensures
        r is Ok <==> len <= MAX_FRAME_LEN,
        r matches Ok(h) ==> h@ == be_bytes_view(len as u32),
        r matches Err(e) ==> e is Protocol,
{
    if len > MAX_FRAME_LEN as usize {
        return Err(NetworkError::Protocol(String::from_str("帧过大")));
    }
    let n = len as u32;
    let h: [u8; 4] = [
        (n / 0x100_0000) as u8,
        ((n / 0x1_0000) % 0x100) as u8,
        ((n / 0x100) % 0x100) as u8,
        (n % 0x100) as u8,
    ];
    assert(h@ =~= be_bytes_view(n));
    Ok(h)
}

/// The whole frame of a payload: prefix and payload; refused above
/// [`MAX_FRAME_LEN`].
pub fn encode_frame(payload: &[u8]) -> (r: Result<Vec<u8>, NetworkError>)
    ensures
        r is Ok <==> payload@.len() <= MAX_FRAME_LEN,
        r matches Ok(f) ==> f@ == frame_view(payload@),
        r matches Err(e) ==> e is Protocol,
{
    let h = frame_header(payload.len())?;
    let mut out: Vec<u8> = Vec::new();
    let mut i: usize = 0;
    while i < 4
        invariant
            i <= 4,
            out@ == h@.take(i as int),
        decreases 4 - i,
    {
        out.push(h[i]);
        i = i + 1;
        assert(out@ =~= h@.take(i as int));
    }
    assert(h@.take(4) =~= h@);
    let mut j: usize = 0;
    while j < payload.len()
        invariant
            j <= payload@.len(),
            out@ == h@ + payload@.take(j as int),
        decreases payload@.len() - j,
    {
        out.push(payload[j]);
        j = j + 1;
        assert(out@ =~= h@ + payload@.take(j as int));
    }
    assert(payload@.take(payload@.len() as int) =~= payload@);
    Ok(out)
}

/// Reads the payload length of a frame from its prefix; refused above
/// [`MAX_FRAME_LEN`].
pub fn frame_len(header: [u8; 4]) -> (r: Result<u32, NetworkError>)
    ensures
        r is Ok <==> be_u32_view(header@) <= MAX_FRAME_LEN,
        r matches Ok(n) ==> n == be_u32_view(header@),
        r matches Err(e) ==> e is Protocol,
{
    let n: u32 = (header[0] as u32) * 0x100_0000 + (header[1] as u32) * 0x1_0000 + (header[2] as u32)
        * 0x100 + (header[3] as u32);
    if n > MAX_FRAME_LEN {
        return Err(NetworkError::Protocol(String::from_str("帧过大")));
    }
    Ok(n)
}

/// The big-endian bytes of a number read back as that number.
pub proof fn lemma_be_roundtrip(n: u32)
    ensures
        be_u32_view(be_bytes_view(n)) == n,
{
    let b = be_bytes_view(n);
    assert(b[0] as nat * 0x100_0000 + b[1] as nat * 0x1_0000 + b[2] as nat * 0x100 + b[3] as nat
        == n) by (nonlinear_arith)
        requires
            b[0] == (n / 0x100_0000) as u8,
            b[1] == ((n / 0x1_0000) % 0x100) as u8,
            b[2] == ((n / 0x100) % 0x100) as u8,
            b[3] == (n % 0x100) as u8,
            n / 0x100_0000 < 0x100,
    ;
}

/// Reading a frame gives back the payload that was framed, for every
/// payload of an allowed length.
pub proof fn lemma_frame_roundtrip(payload: Seq<u8>)
    requires
        payload.len() <= MAX_FRAME_LEN,
    ensures
        unframe_view(frame_view(payload)) == Some(payload),
{
    let f = frame_view(payload);
    lemma_be_roundtrip(payload.len() as u32);
    assert(f.take(4) =~= be_bytes_view(payload.len() as u32));
    assert(f.skip(4) =~= payload);
}


// ---------------------------------------------------------------------------
// JSON forms of the messages
// ---------------------------------------------------------------------------

/// The JSON of a hello: `{"version", "uuid", "name", "pubkey": [32 bytes]}`.
pub open spec fn hello_json(version: u8, uuid: Seq<char>, name: Seq<char>, key: Seq<u8>) -> JsonView {
    JsonView::Object(
        seq![
            ("version"@, JsonView::PosInt(version as u64)),
            ("uuid"@, JsonView::Str(uuid)),
            ("name"@, JsonView::Str(name)),
            ("pubkey"@, JsonView::Array(key.map_values(|b: u8| JsonView::PosInt(b as u64)))),
        ],
    )
}

/// A byte: an integer up to 255.
pub open spec fn dec_byte(j: JsonView) -> Option<u8> {
    match j {
        JsonView::PosInt(n) => if n <= 255 {
            Some(n as u8)
        } else {
            None
        },
        _ => None,
    }
}

/// A public key: exactly 32 bytes.
pub open spec fn dec_key(js: Seq<JsonView>) -> Option<Seq<u8>> {
    if js.len() == 32 && forall|i: int| 0 <= i < js.len() ==> (#[trigger] dec_byte(js[i])) is Some {
        Some(Seq::new(js.len(), |i: int| dec_byte(js[i])->Some_0))
    } else {
        None
    }
}

/// What a hello document reads as: version, UUID, name and key, all
/// required (other members ignored).
pub open spec fn dec_hello(j: JsonView) -> Option<(u8, Seq<char>, Seq<char>, Seq<u8>)> {
    match (view_get(j, "version"@), view_get(j, "uuid"@), view_get(j, "name"@), view_get(j, "pubkey"@)) {
        (Some(v), Some(JsonView::Str(u)), Some(JsonView::Str(n)), Some(JsonView::Array(ks))) => match (
            dec_byte(v),
            dec_key(ks),
        ) {
            (Some(version), Some(key)) => Some((version, u, n, key)),
            _ => None,
        },
        _ => None,
    }
}

/// The JSON of an application message: `{"kind": "push_conversation",
/// "data": <conversation>}` or `{"kind": "ack"}`.
pub open spec fn app_message_json(m: Option<ConversationView>) -> JsonView {
    match m {
        Some(c) => JsonView::Object(
            seq![("kind"@, JsonView::Str("push_conversation"@)), ("data"@, conversation_json(c))],
        ),
        None => JsonView::Object(seq![("kind"@, JsonView::Str("ack"@))]),
    }
}

/// What an application message document reads as: `Some(Some(c))` for a
/// pushed conversation, `Some(None)` for an acknowledgement (whose `data`
/// may be missing or `null`), `None` when refused.
pub open spec fn dec_app_message(j: JsonView) -> Option<Option<ConversationView>> {
    match view_get(j, "kind"@) {
        Some(JsonView::Str(k)) => if k == "push_conversation"@ {
            match view_get(j, "data"@) {
                Some(d) => match dec_conversation(d) {
                    Some(c) => Some(Some(c)),
                    None => None,
                },
                None => None,
            }
        } else if k == "ack"@ {
            match view_get(j, "data"@) {
                None => Some(None),
                Some(JsonView::Null) => Some(None),
                Some(_) => None,
            }
        } else {
            None
        },
        _ => None,
    }
}

/// The conversation an application message carries (none for `Ack`).
pub open spec fn app_message_view(m: AppMessage) -> Option<ConversationView> {
    match m {
        AppMessage::PushConversation(c) => Some(c@),
        AppMessage::Ack => None,
    }
}

fn serde_error(what: &str) -> (e: NetworkError)
    ensures
        e is Serde,
{
    NetworkError::Serde(String::from_str(what))
}

/// Writes a hello.
pub fn hello_to_json(h: &Hello) -> (j: Json)
    ensures
        j@ == hello_json(h.version, h.uuid@, h.name@, h.pubkey@),
{
    let mut bytes: Vec<Json> = Vec::new();
    let mut i: usize = 0;
    while i < 32
        invariant
            i <= 32,
            h.pubkey@.len() == 32,
            jviews(bytes@) =~= h.pubkey@.take(i as int).map_values(|b: u8| JsonView::PosInt(b as u64)),
        decreases 32 - i,
    {
        let ghost before = jviews(bytes@);
        let b = h.pubkey[i];
        bytes.push(Json::Number(JsonNumber::PosInt(b as u64)));
        assert(jviews(bytes@) =~= before.push(JsonView::PosInt(b as u64)));
        assert(h.pubkey@.take(i + 1) =~= h.pubkey@.take(i as int).push(h.pubkey@[i as int]));
        assert(h.pubkey@.take(i + 1).map_values(|b: u8| JsonView::PosInt(b as u64)) =~= h.pubkey@.take(
            i as int,
        ).map_values(|b: u8| JsonView::PosInt(b as u64)).push(JsonView::PosInt(b as u64)));
        i = i + 1;
    }
    assert(h.pubkey@.take(32) =~= h.pubkey@);
    proof {
        lemma_array_view(bytes);
    }
    let mut es: Vec<(String, Json)> = Vec::new();
    push_entry(&mut es, "version", Json::Number(JsonNumber::PosInt(h.version as u64)));
    push_entry(&mut es, "uuid", Json::Str(h.uuid.clone()));
    push_entry(&mut es, "name", Json::Str(h.name.clone()));
    push_entry(&mut es, "pubkey", Json::Array(bytes));
    assert(entry_views(es@) =~= seq![
        ("version"@, JsonView::PosInt(h.version as u64)),
        ("uuid"@, JsonView::Str(h.uuid@)),
        ("name"@, JsonView::Str(h.name@)),
        ("pubkey"@, JsonView::Array(h.pubkey@.map_values(|b: u8| JsonView::PosInt(b as u64)))),
    ]);
    Json::object(es)
}

fn decode_byte(j: &Json) -> (r: Option<u8>)
    ensures
        r == dec_byte(j@),
{
    match j {
        Json::Number(JsonNumber::PosInt(n)) => if *n <= 255 {
            Some(*n as u8)
        } else {
            None
        },
        _ => None,
    }
}

/// Reads a hello; a document of another shape is refused.
#[verifier::loop_isolation(false)]
pub fn hello_from_json(j: &Json) -> (r: Result<Hello, NetworkError>)
    ensures
        match dec_hello(j@) {
            Some((v, u, n, k)) => r matches Ok(h) && h.version == v && h.uuid@ == u && h.name@ == n
                && h.pubkey@ == k,
            None => r matches Err(e) && e is Serde,
        },
{
    let bad = "invalid hello";
    let version = match j.get("version") {
        Some(v) => match decode_byte(v) {
            Some(x) => x,
            None => {
                return Err(serde_error(bad));
            },
        },
        None => {
            return Err(serde_error(bad));
        },
    };
    let uuid = match j.get("uuid") {
        Some(Json::Str(u)) => u.clone(),
        _ => {
            return Err(serde_error(bad));
        },
    };
    let name = match j.get("name") {
        Some(Json::Str(n)) => n.clone(),
        _ => {
            return Err(serde_error(bad));
        },
    };
    let ks = match j.get("pubkey") {
        Some(Json::Array(ks)) => {
            proof {
                lemma_array_view(*ks);
            }
            ks
        },
        _ => {
            return Err(serde_error(bad));
        },
    };
    if ks.len() != 32 {
        return Err(serde_error(bad));
    }
    let ghost js = jviews(ks@);
    let mut key: [u8; 32] = [0u8; 32];
    let mut i: usize = 0;
    while i < 32
        invariant
            i <= 32,
            ks@.len() == 32,
            js == jviews(ks@),
            forall|k: int| 0 <= k < i ==> #[trigger] dec_byte(js[k]) == Some(key@[k]),
        decreases 32 - i,
    {
        match decode_byte(&ks[i]) {
            Some(b) => {
                key[i] = b;
            },
            None => {
                assert(!(dec_byte(js[i as int]) is Some));
                return Err(serde_error(bad));
            },
        }
        i = i + 1;
    }
    assert(key@ =~= Seq::new(js.len(), |k: int| dec_byte(js[k])->Some_0));
    Ok(Hello { version, uuid, name, pubkey: key })
}

/// Writes an application message.
pub fn app_message_to_json(m: &AppMessage) -> (j: Json)
    ensures
        j@ == app_message_json(app_message_view(*m)),
{
    let mut es: Vec<(String, Json)> = Vec::new();
    match m {
        AppMessage::PushConversation(c) => {
            push_entry(&mut es, "kind", Json::from_str("push_conversation"));
            push_entry(&mut es, "data", conversation_to_json(c));
            assert(entry_views(es@) =~= seq![
                ("kind"@, JsonView::Str("push_conversation"@)),
                ("data"@, conversation_json(c@)),
            ]);
        },
        AppMessage::Ack => {
            push_entry(&mut es, "kind", Json::from_str("ack"));
            assert(entry_views(es@) =~= seq![("kind"@, JsonView::Str("ack"@))]);
        },
    }
    Json::object(es)
}

/// Reads an application message; a document of another shape is refused.
pub fn app_message_from_json(j: &Json) -> (r: Result<AppMessage, NetworkError>)
    ensures
        match dec_app_message(j@) {
            Some(o) => r matches Ok(m) && app_message_view(m) == o,
            None => r matches Err(e) && e is Serde,
        },
{
    let bad = "invalid application message";
    let kind = match j.get("kind") {
        Some(Json::Str(k)) => k,
        _ => {
            return Err(serde_error(bad));
        },
    };
    if str_eq(kind.as_str(), "push_conversation") {
        match j.get("data") {
            Some(d) => match conversation_from_json(d) {
                Some(c) => Ok(AppMessage::PushConversation(c)),
                None => Err(serde_error(bad)),
            },
            None => Err(serde_error(bad)),
        }
    } else if str_eq(kind.as_str(), "ack") {
        match j.get("data") {
            None => Ok(AppMessage::Ack),
            Some(Json::Null) => Ok(AppMessage::Ack),
            Some(_) => Err(serde_error(bad)),
        }
    } else {
        Err(serde_error(bad))
    }
}

/// A written hello reads back as the same version, identity and key.
pub proof fn lemma_hello_roundtrip(version: u8, uuid: Seq<char>, name: Seq<char>, key: Seq<u8>)
    requires
        key.len() == 32,
    ensures
        dec_hello(hello_json(version, uuid, name, key)) == Some((version, uuid, name, key)),
{
    reveal_strlit("version");
    assert("version"@.len() == 7);
    reveal_strlit("uuid");
    assert("uuid"@.len() == 4);
    reveal_strlit("name");
    assert("name"@.len() == 4);
    reveal_strlit("pubkey");
    assert("pubkey"@.len() == 6);
    assert("uuid"@[0] != "name"@[0]);
    reveal_with_fuel(entries_get, 5);
    let ks = key.map_values(|b: u8| JsonView::PosInt(b as u64));
    let es = seq![
        ("version"@, JsonView::PosInt(version as u64)),
        ("uuid"@, JsonView::Str(uuid)),
        ("name"@, JsonView::Str(name)),
        ("pubkey"@, JsonView::Array(ks)),
    ];
    assert(es.drop_first() =~= seq![
        ("uuid"@, JsonView::Str(uuid)),
        ("name"@, JsonView::Str(name)),
        ("pubkey"@, JsonView::Array(ks)),
    ]);
    assert(es.drop_first().drop_first() =~= seq![
        ("name"@, JsonView::Str(name)),
        ("pubkey"@, JsonView::Array(ks)),
    ]);
    assert(es.drop_first().drop_first().drop_first() =~= seq![("pubkey"@, JsonView::Array(ks))]);
    assert(entries_get(es, "uuid"@) == Some(JsonView::Str(uuid)));
    assert(entries_get(es, "name"@) == Some(JsonView::Str(name)));
    assert(entries_get(es, "pubkey"@) == Some(JsonView::Array(ks)));
    assert forall|i: int| 0 <= i < ks.len() implies (#[trigger] dec_byte(ks[i])) == Some(key[i]) by {}
    assert(Seq::new(ks.len(), |i: int| dec_byte(ks[i])->Some_0) =~= key);
}

/// A written application message reads back as the same message: the
/// pushed conversation, or the acknowledgement.
pub proof fn lemma_app_message_roundtrip(m: Option<ConversationView>)
    ensures
        dec_app_message(app_message_json(m)) == Some(m),
{
    reveal_strlit("kind");
    assert("kind"@.len() == 4);
    reveal_strlit("data");
    assert("data"@.len() == 4);
    reveal_strlit("push_conversation");
    assert("push_conversation"@.len() == 17);
    reveal_strlit("ack");
    assert("ack"@.len() == 3);
    assert("kind"@[0] != "data"@[0]);
    reveal_with_fuel(entries_get, 3);
    match m {
        Some(c) => {
            let es = seq![("kind"@, JsonView::Str("push_conversation"@)), ("data"@, conversation_json(c))];
            assert(es.drop_first() =~= seq![("data"@, conversation_json(c))]);
            assert(entries_get(es, "data"@) == Some(conversation_json(c)));
            lemma_export_import_roundtrip(c, Seq::empty());
        },
        None => {
            lemma_entries_get_single("kind"@, JsonView::Str("ack"@), "data"@);
        },
    }
}

} // verus!
