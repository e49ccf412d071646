//! Pairing cryptography: X25519 key agreement, HKDF-SHA256 derivation of the
//! session key and of the 6-digit pairing code (SAS), and AES-256-GCM
//! encryption of application frames.
//!
//! Both sides run ECDH, derive the same key and the same code from the
//! shared secret, and show the code to the user; matching codes rule out a
//! man in the middle. The primitives are the outside crates'; this module
//! fixes how they are combined.

use aes_gcm::aead::{Aead, KeyInit};
use rand::RngCore;
use vstd::prelude::*;
use vstd::string::*;

use crate::error::NetworkError;
use crate::text::{decimal_view, digit_char, is_digit, u64_to_decimal_padded, zero_pad_view};

verus! {

broadcast use vstd::string::group_string_axioms;

/// HKDF info string of the session key.
pub const INFO_SESSION: &'static str = "contextsend/v1/session-key";

/// HKDF info string of the pairing code.
pub const INFO_SAS: &'static str = "contextsend/v1/sas-code";

/// Length of an AES-GCM nonce, which prefixes every ciphertext.
pub const NONCE_LEN: usize = 12;

/// Length of an AES-GCM authentication tag.
pub const TAG_LEN: usize = 16;

/// The largest plaintext AES-GCM accepts (`aes_gcm::P_MAX`).
pub const AES_GCM_P_MAX: u64 = 0x10_0000_0000;

// ---------------------------------------------------------------------------
// Outside primitives
// ---------------------------------------------------------------------------

/// The X25519 public key of a secret (`PublicKey::from(&StaticSecret)`).
pub uninterp spec fn x25519_public_view(secret: Seq<u8>) -> Seq<u8>;

/// The X25519 shared secret of a secret and a peer's public key.
pub uninterp spec fn x25519_shared_view(secret: Seq<u8>, peer: Seq<u8>) -> Seq<u8>;

/// HKDF-SHA256 output: salt, input key material, info and length.
pub uninterp spec fn hkdf_sha256_view(salt: Seq<u8>, ikm: Seq<u8>, info: Seq<u8>, len: nat) -> Seq<u8>;

/// AES-256-GCM encryption (no associated data): ciphertext with tag, or
/// `None` when the plaintext is too long.
pub uninterp spec fn aes_gcm_seal_view(key: Seq<u8>, nonce: Seq<u8>, pt: Seq<u8>) -> Option<Seq<u8>>;

/// AES-256-GCM decryption (no associated data): the plaintext, or `None`
/// when the tag does not verify.
pub uninterp spec fn aes_gcm_open_view(key: Seq<u8>, nonce: Seq<u8>, ct: Seq<u8>) -> Option<Seq<u8>>;

/// `StaticSecret::random_from_rng(OsRng).to_bytes()`: 32 fresh random bytes
/// (clamping happens when the secret is used). Nothing is promised of them.
#[verifier::external_body]
fn x25519_random_secret() -> (s: [u8; 32]) {
    x25519_dalek::StaticSecret::random_from_rng(rand::rngs::OsRng).to_bytes()
}

/// `PublicKey::from(&StaticSecret::from(secret)).to_bytes()`: the public key
/// of a secret, named by [`x25519_public_view`].
#[verifier::external_body]
fn x25519_public(secret: &[u8; 32]) -> (p: [u8; 32])
    ensures
        p@ == x25519_public_view(secret@),
{
    x25519_dalek::PublicKey::from(&x25519_dalek::StaticSecret::from(*secret)).to_bytes()
}

/// `StaticSecret::from(secret).diffie_hellman(&PublicKey::from(peer))`: the
/// shared secret, named by [`x25519_shared_view`]. As the crate documents
/// (both parties of an exchange obtain the same shared secret), when the peer
/// key is the public key of a secret `b`, the result equals what `b` computes
/// with this side's public key.
#[verifier::external_body]
fn x25519_shared(secret: &[u8; 32], peer: &[u8; 32]) -> (s: [u8; 32])
    ensures
        s@ == x25519_shared_view(secret@, peer@),
        forall|b: Seq<u8>|
            b.len() == 32 && peer@ == #[trigger] x25519_public_view(b) ==> s@ == x25519_shared_view(
                b,
                x25519_public_view(secret@),
            ),
{
    let s = x25519_dalek::StaticSecret::from(*secret);
    s.diffie_hellman(&x25519_dalek::PublicKey::from(*peer)).to_bytes()
}

/// `Hkdf::<Sha256>::new(Some(salt), ikm).expand(info, &mut okm)` for an
/// output of `len` bytes; expansion only fails above 255 hash lengths, which
/// `requires` excludes.
#[verifier::external_body]
fn hkdf_sha256(salt: &[u8], ikm: &[u8], info: &[u8], len: usize) -> (okm: Vec<u8>)
    requires
        len <= 255 * 32,
    ensures
        okm@ == hkdf_sha256_view(salt@, ikm@, info@, len as nat),
        okm@.len() == len,
{
    let hk = hkdf::Hkdf::<sha2::Sha256>::new(Some(salt), ikm);
    let mut okm = vec![0u8; len];
    hk.expand(info, &mut okm).expect("length within HKDF bounds");
    okm
}

/// `Aes256Gcm::new(key).encrypt(nonce, pt)`: the ciphertext followed by the
/// 16-byte tag. It fails only for plaintexts over `P_MAX` bytes, and what it
/// produces decrypts back to the plaintext under the same key and nonce.
/// Decryption recomputes the tag from the ciphertext and compares it in
/// full, so the output with any one tag byte changed does not decrypt.
#[verifier::external_body]
fn aes_gcm_seal(key: &[u8; 32], nonce: &[u8; 12], pt: &[u8]) -> (ct: Option<Vec<u8>>)
    ensures
        match ct {
            Some(c) => aes_gcm_seal_view(key@, nonce@, pt@) == Some(c@),
            None => aes_gcm_seal_view(key@, nonce@, pt@) is None,
        },
        ct is Some <==> pt@.len() <= AES_GCM_P_MAX,
        ct matches Some(c) ==> c@.len() == pt@.len() + TAG_LEN,
        ct matches Some(c) ==> aes_gcm_open_view(key@, nonce@, c@) == Some(pt@),
        ct matches Some(c) ==> forall|i: int, x: u8|
            c@.len() - TAG_LEN <= i < c@.len() && x != c@[i] ==> #[trigger] aes_gcm_open_view(
                key@,
                nonce@,
                c@.update(i, x),
            ) is None,
{
    let cipher = aes_gcm::Aes256Gcm::new(key.into());
    cipher.encrypt(aes_gcm::Nonce::from_slice(nonce), pt).ok()
}

/// `Aes256Gcm::new(key).decrypt(nonce, ct)`: the plaintext when the tag
/// verifies, named by [`aes_gcm_open_view`].
#[verifier::external_body]
fn aes_gcm_open(key: &[u8; 32], nonce: &[u8], ct: &[u8]) -> (pt: Option<Vec<u8>>)
    requires
        nonce@.len() == 12,
    ensures
        match pt {
            Some(p) => aes_gcm_open_view(key@, nonce@, ct@) == Some(p@),
            None => aes_gcm_open_view(key@, nonce@, ct@) is None,
        },
{
    let cipher = aes_gcm::Aes256Gcm::new(key.into());
    cipher.decrypt(aes_gcm::Nonce::from_slice(nonce), ct).ok()
}

/// `OsRng.fill_bytes`: 12 fresh random bytes for a nonce. Nothing is promised
/// of them.
#[verifier::external_body]
fn random_nonce() -> (n: [u8; 12]) {
    let mut n = [0u8; 12];
    rand::rngs::OsRng.fill_bytes(&mut n);
    n
}


// ---------------------------------------------------------------------------
// Key agreement and derivation
// ---------------------------------------------------------------------------

/// Lexicographic "greater than" on byte strings (slice `Ord`).
pub open spec fn lex_gt(a: Seq<u8>, b: Seq<u8>) -> bool
    decreases a.len(),
{
    if a.len() == 0 {
        false
    } else if b.len() == 0 {
        true
    } else if a[0] != b[0] {
        a[0] > b[0]
    } else {
        lex_gt(a.drop_first(), b.drop_first())
    }
}

/// Compares two byte strings lexicographically (`a > b` on slices).
pub fn bytes_gt(a: &[u8], b: &[u8]) -> (r: bool)
    ensures
        r == lex_gt(a@, b@),
{
    let mut i: usize = 0;
    assert(a@.skip(0) =~= a@);
    assert(b@.skip(0) =~= b@);
    while i < a.len() && i < b.len() && a[i] == b[i]
        invariant
            i <= a@.len(),
            i <= b@.len(),
            lex_gt(a@, b@) == lex_gt(a@.skip(i as int), b@.skip(i as int)),
        decreases a@.len() - i,
    {
        assert(a@.skip(i as int).drop_first() =~= a@.skip(i + 1));
        assert(b@.skip(i as int).drop_first() =~= b@.skip(i + 1));
        i = i + 1;
    }
    if i == a.len() {
        false
    } else if i == b.len() {
        true
    } else {
        a[i] > b[i]
    }
}

/// Of two equal-length byte strings, at most one is greater, and when
/// neither is they are equal.
pub proof fn lemma_lex_total(a: Seq<u8>, b: Seq<u8>)
    requires
        a.len() == b.len(),
    ensures
        !(lex_gt(a, b) && lex_gt(b, a)),
        !lex_gt(a, b) && !lex_gt(b, a) ==> a == b,
    decreases a.len(),
{
    if a.len() > 0 && a[0] == b[0] {
        lemma_lex_total(a.drop_first(), b.drop_first());
        if a.drop_first() == b.drop_first() {
            assert(a =~= seq![a[0]] + a.drop_first());
            assert(b =~= seq![b[0]] + b.drop_first());
        }
    } else if a.len() == 0 {
        assert(a =~= b);
    }
}

/// The HKDF salt: both public keys, smaller first, so both sides agree
/// whoever sent first.
pub open spec fn salt_view(own: Seq<u8>, peer: Seq<u8>) -> Seq<u8> {
    if lex_gt(own, peer) {
        peer + own
    } else {
        own + peer
    }
}

/// A big-endian `u32`.
pub open spec fn be_u32_view(b: Seq<u8>) -> nat {
    (b[0] as nat) * 0x100_0000 + (b[1] as nat) * 0x1_0000 + (b[2] as nat) * 0x100 + (b[3] as nat)
}

/// The 6-digit code of a number: its remainder by a million, zero-padded.
pub open spec fn pin_view(n: nat) -> Seq<char> {
    zero_pad_view(decimal_view(n % 1_000_000), 6)
}

/// The session key derived from the public keys and the shared secret.
pub open spec fn session_key_view(own_pub: Seq<u8>, peer_pub: Seq<u8>, shared: Seq<u8>) -> Seq<u8> {
    hkdf_sha256_view(salt_view(own_pub, peer_pub), shared, INFO_SESSION@.map_values(|c: char| c as u8), 32)
}

/// The pairing code derived from the public keys and the shared secret.
pub open spec fn sas_pin_view(own_pub: Seq<u8>, peer_pub: Seq<u8>, shared: Seq<u8>) -> Seq<char> {
    pin_view(
        be_u32_view(
            hkdf_sha256_view(
                salt_view(own_pub, peer_pub),
                shared,
                INFO_SAS@.map_values(|c: char| c as u8),
                4,
            ),
        ),
    )
}

/// Formats the pairing code of four derived bytes.
pub fn pin_from_sas_bytes(b: &[u8]) -> (pin: String)
    requires
        b@.len() == 4,
    ensures
        pin@ == pin_view(be_u32_view(b@)),
        pin@.len() == 6,
        forall|i: int| 0 <= i < 6 ==> is_digit(#[trigger] pin@[i]),
{
    let n: u32 = (b[0] as u32) * 0x100_0000 + (b[1] as u32) * 0x1_0000 + (b[2] as u32) * 0x100 + (
    b[3] as u32);
    let code = n % 1_000_000;
    let pin = u64_to_decimal_padded(code as u64, 6);
    proof {
        lemma_decimal_len_le_6(code as nat);
        lemma_pin_digits(n as nat);
    }
    pin
}

proof fn lemma_decimal_digits(n: nat)
    ensures
        forall|i: int| 0 <= i < decimal_view(n).len() ==> is_digit(#[trigger] decimal_view(n)[i]),
    decreases n,
{
    let c = digit_char(n % 10);
    assert(is_digit(c));
    if n >= 10 {
        lemma_decimal_digits(n / 10);
        let d = decimal_view(n);
        let p = decimal_view(n / 10);
        assert forall|i: int| 0 <= i < d.len() implies is_digit(#[trigger] d[i]) by {
            if i < p.len() {
                assert(d[i] == p[i]);
            } else {
                assert(d[i] == c);
            }
        }
    } else {
        assert(decimal_view(n)[0] == c);
    }
}

/// Every character of a pairing code is an ASCII digit.
pub proof fn lemma_pin_digits(n: nat)
    ensures
        forall|i: int| 0 <= i < pin_view(n).len() ==> is_digit(#[trigger] pin_view(n)[i]),
{
    lemma_decimal_digits(n % 1_000_000);
    let d = decimal_view(n % 1_000_000);
    if d.len() < 6 {
        let pad = Seq::new((6 - d.len()) as nat, |i: int| '0');
        assert forall|i: int| 0 <= i < pin_view(n).len() implies is_digit(#[trigger] pin_view(n)[i]) by {
            if i < pad.len() {
                assert(pin_view(n)[i] == '0');
            } else {
                assert(pin_view(n)[i] == d[i - pad.len()]);
            }
        }
    }
}

/// A number below a million has at most six digits.
proof fn lemma_decimal_len_le_6(n: nat)
    requires
        n < 1_000_000,
    ensures
        decimal_view(n).len() <= 6,
        zero_pad_view(decimal_view(n), 6).len() == 6,
{
    reveal_with_fuel(pow10, 7);
    assert(pow10(6) == 1_000_000);
    lemma_decimal_len_bound(n, 6);
}

proof fn lemma_decimal_len_bound(n: nat, d: nat)
    requires
        1 <= d,
        n < pow10(d),
    ensures
        decimal_view(n).len() <= d,
    decreases d,
{
    if n >= 10 {
        reveal_with_fuel(pow10, 2);
        assert(d > 1);
        assert(n / 10 < pow10((d - 1) as nat)) by (nonlinear_arith)
            requires
                n < pow10(d),
                pow10(d) == 10 * pow10((d - 1) as nat),
        ;
        lemma_decimal_len_bound(n / 10, (d - 1) as nat);
    }
}

/// Ten to the power `d`.
pub open spec fn pow10(d: nat) -> nat
    decreases d,
{
    if d == 0 {
        1
    } else {
        10 * pow10((d - 1) as nat)
    }
}

/// The bytes of an ASCII text constant.
fn ascii_bytes(s: &str) -> (b: &[u8])
    requires
        vstd::string::is_ascii(s),
    ensures
        b@ == s@.map_values(|c: char| c as u8),
{
    let b = s.as_bytes();
    proof {
        vstd::string::is_ascii_spec_bytes(s);
        assert(b@ =~= s@.map_values(|c: char| c as u8));
    }
    b
}

/// The key material of one side of a pairing.
pub struct KeyExchange {
    secret: [u8; 32],
    public: [u8; 32],
}

impl KeyExchange {
    /// The public key is the X25519 public key of the secret.
    #[verifier::type_invariant]
    closed spec fn wf(&self) -> bool {
        self.public@ == x25519_public_view(self.secret@)
    }

    /// The secret key.
    pub closed spec fn secret_view(&self) -> Seq<u8> {
        self.secret@
    }

    /// The public key, to send to the peer.
    pub closed spec fn public_view(&self) -> Seq<u8> {
        self.public@
    }

    /// Generates a fresh X25519 key pair.
    pub fn generate() -> (kx: Self)
        ensures
            kx.public_view() == x25519_public_view(kx.secret_view()),
            kx.secret_view().len() == 32,
            kx.public_view().len() == 32,
    {
        let secret = x25519_random_secret();
        let public = x25519_public(&secret);
        KeyExchange { secret, public }
    }

    /// This side's public key (32 bytes).
    pub fn public_bytes(&self) -> (p: [u8; 32])
        ensures
            p@ == self.public_view(),
    {
        self.public
    }

    /// Completes ECDH with the peer's public key and derives the session key
    /// and the 6-digit pairing code.
    pub fn complete(self, peer_public: [u8; 32]) -> (keys: PairedKeys)
        ensures
            ({
                let shared = x25519_shared_view(self.secret_view(), peer_public@);
                &&& keys@.0 == session_key_view(self.public_view(), peer_public@, shared)
                &&& keys@.1 == sas_pin_view(self.public_view(), peer_public@, shared)
                &&& keys@.1.len() == 6
                &&& forall|i: int| 0 <= i < 6 ==> is_digit(#[trigger] keys@.1[i])
                &&& forall|b: Seq<u8>|
                    b.len() == 32 && peer_public@ == #[trigger] x25519_public_view(b) ==> shared
                        == x25519_shared_view(b, self.public_view())
                &&& self.public_view() == x25519_public_view(self.secret_view())
            }),
    {
        proof {
            use_type_invariant(&self);
        }
        let shared = x25519_shared(&self.secret, &peer_public);
        let own = self.public;
        let mut salt: Vec<u8> = Vec::new();
        let swap = bytes_gt(own.as_slice(), peer_public.as_slice());
        let (a, b) = if swap {
            (peer_public, own)
        } else {
            (own, peer_public)
        };
        let mut i: usize = 0;
        while i < 32
            invariant
                i <= 32,
                salt@ == a@.take(i as int),
            decreases 32 - i,
        {
            salt.push(a[i]);
            i = i + 1;
            assert(salt@ =~= a@.take(i as int));
        }
        let mut j: usize = 0;
        while j < 32
            invariant
                j <= 32,
                salt@ == a@ + b@.take(j as int),
            decreases 32 - j,
        {
            salt.push(b[j]);
            j = j + 1;
            assert(salt@ =~= a@ + b@.take(j as int));
        }
        assert(a@.take(32) =~= a@);
        assert(b@.take(32) =~= b@);
        assert(salt@ == salt_view(own@, peer_public@));
        proof {
            reveal_strlit("contextsend/v1/session-key");
            reveal_strlit("contextsend/v1/sas-code");
        }
        let info_session = ascii_bytes(INFO_SESSION);
        let info_sas = ascii_bytes(INFO_SAS);
        let key_vec = hkdf_sha256(salt.as_slice(), shared.as_slice(), info_session, 32);
        let mut session_key = [0u8; 32];
        let mut k: usize = 0;
        while k < 32
            invariant
                k <= 32,
                key_vec@.len() == 32,
                forall|q: int| 0 <= q < k ==> session_key@[q] == key_vec@[q],
            decreases 32 - k,
        {
            session_key[k] = key_vec[k];
            k = k + 1;
        }
        assert(session_key@ =~= key_vec@);
        let sas = hkdf_sha256(salt.as_slice(), shared.as_slice(), info_sas, 4);
        let pin = pin_from_sas_bytes(sas.as_slice());
        PairedKeys { session_key, pin }
    }
}

/// The outcome of a completed exchange: session key and pairing code.
#[derive(Clone)]
pub struct PairedKeys {
    session_key: [u8; 32],
    pin: String,
}

impl View for PairedKeys {
    type V = (Seq<u8>, Seq<char>);

    closed spec fn view(&self) -> (Seq<u8>, Seq<char>) {
        (self.session_key@, self.pin@)
    }
}

impl PairedKeys {
    /// The 6-digit pairing code (the same on both sides).
    pub fn pin(&self) -> (p: &str)
        ensures
            p@ == self@.1,
    {
        self.pin.as_str()
    }

    /// A cipher under the session key.
    pub fn cipher(&self) -> (c: SessionCipher)
        ensures
            c@ == self@.0,
    {
        SessionCipher { key: self.session_key }
    }
}

// ---------------------------------------------------------------------------
// Frame encryption
// ---------------------------------------------------------------------------

/// AES-256-GCM under a session key; every ciphertext is
/// `nonce (12 bytes) || ciphertext with tag`.
pub struct SessionCipher {
    key: [u8; 32],
}

impl View for SessionCipher {
    type V = Seq<u8>;

    closed spec fn view(&self) -> Seq<u8> {
        self.key@
    }
}

/// What decrypting some data yields: `None` for data shorter than a nonce or
/// whose tag does not verify.
pub open spec fn decrypt_view(key: Seq<u8>, data: Seq<u8>) -> Option<Seq<u8>> {
    if data.len() < NONCE_LEN {
        None
    } else {
        aes_gcm_open_view(key, data.take(NONCE_LEN as int), data.skip(NONCE_LEN as int))
    }
}

impl SessionCipher {
    /// Encrypts with a fresh random nonce: `nonce || ciphertext(with tag)`.
    /// What comes out decrypts back to the plaintext under the same key.
    pub fn encrypt(&self, plaintext: &[u8]) -> (r: Result<Vec<u8>, NetworkError>)
        ensures
            r is Ok <==> plaintext@.len() <= AES_GCM_P_MAX,
            r matches Ok(out) ==> out@.len() == NONCE_LEN + plaintext@.len() + TAG_LEN
                && aes_gcm_seal_view(self@, out@.take(NONCE_LEN as int), plaintext@) == Some(
                out@.skip(NONCE_LEN as int),
            ) && decrypt_view(self@, out@) == Some(plaintext@),
            r matches Ok(out) ==> forall|i: int, x: u8|
                out@.len() - TAG_LEN <= i < out@.len() && x != out@[i] ==> #[trigger] decrypt_view(
                    self@,
                    out@.update(i, x),
                ) is None,
            r matches Err(e) ==> e is Crypto,
    {
        let nonce = random_nonce();
        let ct = match aes_gcm_seal(&self.key, &nonce, plaintext) {
            Some(c) => c,
            None => {
                return Err(NetworkError::Crypto(String::from_str("加密失败")));
            },
        };
        let mut out: Vec<u8> = Vec::new();
        let mut i: usize = 0;
        while i < 12
            invariant
                i <= 12,
                out@ == nonce@.take(i as int),
            decreases 12 - i,
        {
            out.push(nonce[i]);
            i = i + 1;
            assert(out@ =~= nonce@.take(i as int));
        }
        assert(nonce@.take(12) =~= nonce@);
        let mut j: usize = 0;
        while j < ct.len()
            invariant
                j <= ct@.len(),
                out@ == nonce@ + ct@.take(j as int),
            decreases ct@.len() - j,
        {
            out.push(ct[j]);
            j = j + 1;
            assert(out@ =~= nonce@ + ct@.take(j as int));
        }
        assert(ct@.take(ct@.len() as int) =~= ct@);
        assert(out@.take(12) =~= nonce@);
        assert(out@.skip(12) =~= ct@);
        assert forall|i: int, x: u8|
            out@.len() - TAG_LEN <= i < out@.len() && x != out@[i] implies #[trigger] decrypt_view(
                self@,
                out@.update(i, x),
            ) is None by {
            let t = out@.update(i, x);
            assert(t.take(12) =~= nonce@);
            assert(t.skip(12) =~= ct@.update(i - 12, x));
            assert(out@[i] == ct@[i - 12]);
        }
        Ok(out)
    }

    /// Decrypts the output of [`Self::encrypt`].
    pub fn decrypt(&self, data: &[u8]) -> (r: Result<Vec<u8>, NetworkError>)
        ensures
            match r {
                Ok(p) => decrypt_view(self@, data@) == Some(p@),
                Err(e) => decrypt_view(self@, data@) is None && e is Crypto,
            },
    {
        if data.len() < NONCE_LEN {
            return Err(NetworkError::Crypto(String::from_str("密文过短")));
        }
        let mut nonce: Vec<u8> = Vec::new();
        let mut i: usize = 0;
        while i < 12
            invariant
                i <= 12,
                data@.len() >= 12,
                nonce@ == data@.take(i as int),
            decreases 12 - i,
        {
            nonce.push(data[i]);
            i = i + 1;
            assert(nonce@ =~= data@.take(i as int));
        }
        let mut ct: Vec<u8> = Vec::new();
        let mut j: usize = 12;
        while j < data.len()
            invariant
                12 <= j <= data@.len(),
                ct@ == data@.subrange(12, j as int),
            decreases data@.len() - j,
        {
            ct.push(data[j]);
            j = j + 1;
            assert(ct@ =~= data@.subrange(12, j as int));
        }
        assert(ct@ =~= data@.skip(12));
        match aes_gcm_open(&self.key, nonce.as_slice(), ct.as_slice()) {
            Some(p) => Ok(p),
            None => Err(NetworkError::Crypto(String::from_str("解密失败（密钥不符或数据被篡改）"))),
        }
    }
}

/// Both sides of an exchange that hold the same shared secret derive the
/// same session key and the same pairing code, whichever public key is
/// their own.
pub proof fn lemma_both_sides_derive_same_keys(a_pub: Seq<u8>, b_pub: Seq<u8>, shared: Seq<u8>)
    requires
        a_pub.len() == 32,
        b_pub.len() == 32,
    ensures
        session_key_view(a_pub, b_pub, shared) == session_key_view(b_pub, a_pub, shared),
        sas_pin_view(a_pub, b_pub, shared) == sas_pin_view(b_pub, a_pub, shared),
{
    lemma_lex_total(a_pub, b_pub);
    assert(salt_view(a_pub, b_pub) == salt_view(b_pub, a_pub));
}

} // verus!
