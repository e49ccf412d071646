//! The pairing handshake: both sides generate X25519 keys, exchange
//! [`Hello`]s, check the peer's protocol version and derive the same session
//! key and pairing code. The streams are driven by the application; this
//! module decides what is sent and what a received hello yields.

use vstd::prelude::*;
use vstd::string::*;

use crate::crypto::{
    decrypt_view, lemma_both_sides_derive_same_keys, sas_pin_view, session_key_view,
    x25519_public_view, x25519_shared_view, KeyExchange, PairedKeys, TAG_LEN,
};
use crate::message::ConversationView;
use crate::error::NetworkError;
use crate::text::is_digit;
use crate::text::u64_to_decimal;
use crate::wire::{
    app_message_json, dec_app_message, frame_view, lemma_app_message_roundtrip,
    lemma_frame_roundtrip, unframe_view, Hello, MAX_FRAME_LEN, PROTOCOL_VERSION,
};

verus! {

broadcast use vstd::string::group_string_axioms;

/// This side's identity as sent in the handshake.
#[derive(Debug, Clone)]
pub struct LocalHello {
    pub uuid: String,
    pub name: String,
}

/// The peer's identity learnt in the handshake.
#[derive(Debug, Clone, PartialEq, Eq)]
pub struct PeerInfo {
    pub uuid: String,
    pub name: String,
}

/// The hello this side sends: protocol version 1, its identity and key.
pub fn local_hello_message(local: &LocalHello, kx: &KeyExchange) -> (h: Hello)
    ensures
        h.version == PROTOCOL_VERSION,
        h.uuid@ == local.uuid@,
        h.name@ == local.name@,
        h.pubkey@ == kx.public_view(),
{
    Hello {
        version: PROTOCOL_VERSION,
        uuid: local.uuid.clone(),
        name: local.name.clone(),
        pubkey: kx.public_bytes(),
    }
}

/// Completes the handshake with the peer's hello: a hello of another
/// protocol version is refused; otherwise the peer's identity and the keys
/// derived with the peer's public key.
pub fn finish_handshake(kx: KeyExchange, peer: Hello) -> (r: Result<(PeerInfo, PairedKeys), NetworkError>)
    ensures
        r is Ok <==> peer.version == PROTOCOL_VERSION,
        r matches Err(e) ==> e is Protocol,
        r matches Ok((info, keys)) ==> ({
            let shared = x25519_shared_view(kx.secret_view(), peer.pubkey@);
            &&& info.uuid@ == peer.uuid@
            &&& info.name@ == peer.name@
            &&& keys@.0 == session_key_view(kx.public_view(), peer.pubkey@, shared)
            &&& keys@.1 == sas_pin_view(kx.public_view(), peer.pubkey@, shared)
            &&& keys@.1.len() == 6
            &&& forall|i: int| 0 <= i < 6 ==> is_digit(#[trigger] keys@.1[i])
            &&& forall|b: Seq<u8>|
                b.len() == 32 && peer.pubkey@ == #[trigger] x25519_public_view(b) ==> shared
                    == x25519_shared_view(b, kx.public_view())
        }),
{
    if peer.version != PROTOCOL_VERSION {
        let mut msg = String::from_str("不支持的协议版本: ");
        let v = u64_to_decimal(peer.version as u64);
        msg.append(v.as_str());
        return Err(NetworkError::Protocol(msg));
    }
    let keys = kx.complete(peer.pubkey);
    Ok((PeerInfo { uuid: peer.uuid, name: peer.name }, keys))
}


/// The two ends of one handshake agree, and what one end sends the other
/// reads back. Side A holds secret `sec_a` and got B's hello with `pub_b`;
/// side B holds `sec_b` and got A's hello with `pub_a`; the requirements are
/// what `KeyExchange::generate` and A's `finish_handshake` ensure. Then:
/// - both ends hold the same session key and show the same pairing code;
/// - data that A's cipher produced for some plaintext (`SessionCipher::encrypt`)
///   passes through a frame unchanged, decrypts under B's key to that
///   plaintext, and with any tag byte changed does not decrypt at all;
/// - an application message written as JSON reads back as that message.
/// (Turning the message's JSON into the plaintext bytes and back is the
/// application's JSON text step.)
pub proof fn lemma_pairing_end_to_end(
    sec_a: Seq<u8>,
    pub_a: Seq<u8>,
    sec_b: Seq<u8>,
    pub_b: Seq<u8>,
    data: Seq<u8>,
    plain: Seq<u8>,
    m: Option<ConversationView>,
)
    requires
        sec_a.len() == 32,
        sec_b.len() == 32,
        pub_a.len() == 32,
        pub_b.len() == 32,
        pub_a == x25519_public_view(sec_a),
        pub_b == x25519_public_view(sec_b),
        forall|b: Seq<u8>|
            b.len() == 32 && pub_b == #[trigger] x25519_public_view(b) ==> x25519_shared_view(
                sec_a,
                pub_b,
            ) == x25519_shared_view(b, pub_a),
        decrypt_view(session_key_view(pub_a, pub_b, x25519_shared_view(sec_a, pub_b)), data)
            == Some(plain),
        forall|i: int, x: u8|
            data.len() - TAG_LEN <= i < data.len() && x != data[i] ==> #[trigger] decrypt_view(
                session_key_view(pub_a, pub_b, x25519_shared_view(sec_a, pub_b)),
                data.update(i, x),
            ) is None,
        data.len() <= MAX_FRAME_LEN,
    ensures
        session_key_view(pub_a, pub_b, x25519_shared_view(sec_a, pub_b)) == session_key_view(
            pub_b,
            pub_a,
            x25519_shared_view(sec_b, pub_a),
        ),
        sas_pin_view(pub_a, pub_b, x25519_shared_view(sec_a, pub_b)) == sas_pin_view(
            pub_b,
            pub_a,
            x25519_shared_view(sec_b, pub_a),
        ),
        unframe_view(frame_view(data)) == Some(data),
        decrypt_view(session_key_view(pub_b, pub_a, x25519_shared_view(sec_b, pub_a)), data)
            == Some(plain),
        forall|i: int, x: u8|
            data.len() - TAG_LEN <= i < data.len() && x != data[i] ==> #[trigger] decrypt_view(
                session_key_view(pub_b, pub_a, x25519_shared_view(sec_b, pub_a)),
                data.update(i, x),
            ) is None,
        dec_app_message(app_message_json(m)) == Some(m),
{
    assert(x25519_shared_view(sec_a, pub_b) == x25519_shared_view(sec_b, pub_a));
    lemma_both_sides_derive_same_keys(pub_a, pub_b, x25519_shared_view(sec_a, pub_b));
    lemma_frame_roundtrip(data);
    lemma_app_message_roundtrip(m);
}

} // verus!
