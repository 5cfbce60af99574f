//! The cryptographic identity and channel-encryption layer.
//!
//! A `CryptoManager` owns an Ed25519 signing keypair and an X25519 key-agreement
//! keypair. It signs, verifies, derives pairwise symmetric keys, and performs
//! authenticated encryption under them. The primitives come from outside
//! crates; their results are named by uninterpreted functions, and everything
//! around the calls is verified against those names.

use vstd::prelude::*;
use vstd::string::StrSliceExecFns;
use vstd::utf8::{decode_utf8, encode_utf8, valid_utf8};

verus! {

/// The Ed25519 verifying key derived from a 32-byte signing secret.
pub uninterp spec fn ed25519_public_of(secret: Seq<u8>) -> Seq<u8>;

/// The Ed25519 signature of a message under a 32-byte signing secret
/// (deterministic per RFC 8032).
pub uninterp spec fn ed25519_signature_of(secret: Seq<u8>, message: Seq<u8>) -> Seq<u8>;

/// Whether an Ed25519 signature verifies for a message under a public key.
pub uninterp spec fn ed25519_verifies(public_key: Seq<u8>, message: Seq<u8>, sig: Seq<u8>) -> bool;

/// Whether 32 bytes decode to a valid Ed25519 public key point.
pub uninterp spec fn ed25519_valid_public_key(public_key: Seq<u8>) -> bool;

/// The X25519 public share derived from a 32-byte secret share.
pub uninterp spec fn x25519_public_of(secret: Seq<u8>) -> Seq<u8>;

/// The X25519 Diffie-Hellman shared secret of a secret share and a peer's
/// public share.
pub uninterp spec fn x25519_shared_key(secret: Seq<u8>, peer_public: Seq<u8>) -> Seq<u8>;

/// The ChaCha20-Poly1305 sealing of a plaintext under a key and nonce
/// (ciphertext with its 16-byte tag appended).
pub uninterp spec fn chacha_seal(key: Seq<u8>, nonce: Seq<u8>, plaintext: Seq<u8>) -> Seq<u8>;

/// The ChaCha20-Poly1305 opening of a ciphertext-with-tag under a key and
/// nonce; `None` on any tag mismatch.
pub uninterp spec fn chacha_open(key: Seq<u8>, nonce: Seq<u8>, ciphertext: Seq<u8>) -> Option<
    Seq<u8>,
>;

/// A full signature check: well-sized inputs, a valid key point, and a
/// verifying signature.
pub open spec fn signature_checks(public_key: Seq<u8>, message: Seq<u8>, sig: Seq<u8>) -> bool {
    &&& public_key.len() == 32
    &&& sig.len() == 64
    &&& ed25519_valid_public_key(public_key)
    &&& ed25519_verifies(public_key, message, sig)
}

/// Upper bound accepted for one plaintext, far below the AEAD's own limit,
/// so the cipher call cannot fail.
pub open spec fn fits_plaintext(len: nat) -> bool {
    len <= 0xffff_ffff
}

/// Failures of the cryptographic layer. Each is reported, never swallowed:
/// a failure here means corruption or an active attacker.
#[derive(Clone, Copy, Debug, PartialEq, Eq, Structural)]
pub enum CryptoError {
    /// A signature did not verify, or the key or signature bytes were malformed.
    SignatureInvalid,
    /// Ciphertext shorter than the 12-byte nonce prefix.
    TooShort,
    /// The AEAD tag did not match: the ciphertext was tampered with or the key
    /// is wrong.
    AuthenticationFailure,
    /// The authenticated plaintext was not UTF-8 text.
    InvalidUtf8,
}

/// Relies on `ed25519_dalek::SigningKey::generate` drawing a fresh secret from
/// the OS CSPRNG. Random: nothing is promised beyond the length.
#[verifier::external_body]
fn ed25519_generate() -> (r: Vec<u8>)
    ensures
        r@.len() == 32,
{
    let key = ed25519_dalek::SigningKey::generate(&mut rand::rngs::OsRng);
    key.to_bytes().to_vec()
}

/// Relies on `ed25519_dalek::SigningKey::verifying_key`: the verifying key is a
/// function of the secret alone, 32 bytes, and a valid key point.
#[verifier::external_body]
fn ed25519_public_key(secret: &Vec<u8>) -> (r: Vec<u8>)
    requires
        secret@.len() == 32,
    ensures
        r@ == ed25519_public_of(secret@),
        r@.len() == 32,
        ed25519_valid_public_key(r@),
{
    let arr: [u8; 32] = secret.as_slice().try_into().unwrap();
    let key = ed25519_dalek::SigningKey::from_bytes(&arr);
    key.verifying_key().to_bytes().to_vec()
}

/// Relies on `ed25519_dalek::SigningKey`'s `Signer::sign` (infallible for this
/// signer): the signature is a deterministic function of secret and message,
/// is 64 bytes, and verifies under the corresponding verifying key (RFC 8032
/// correctness, as the crate documents for `verify`).
#[verifier::external_body]
fn ed25519_sign(secret: &Vec<u8>, message: &Vec<u8>) -> (r: Vec<u8>)
    requires
        secret@.len() == 32,
    ensures
        r@ == ed25519_signature_of(secret@, message@),
        r@.len() == 64,
        ed25519_verifies(ed25519_public_of(secret@), message@, r@),
{
    let arr: [u8; 32] = secret.as_slice().try_into().unwrap();
    let key = ed25519_dalek::SigningKey::from_bytes(&arr);
    ed25519_dalek::Signer::sign(&key, message.as_slice()).to_bytes().to_vec()
}

/// Relies on `ed25519_dalek::VerifyingKey::from_bytes` (fails exactly on an
/// invalid key point) and `Verifier::verify` (deterministic in key, message
/// and signature).
#[verifier::external_body]
fn ed25519_verify_raw(public_key: &Vec<u8>, message: &Vec<u8>, sig: &Vec<u8>) -> (r: bool)
    requires
        public_key@.len() == 32,
        sig@.len() == 64,
    ensures
        r == (ed25519_valid_public_key(public_key@) && ed25519_verifies(
            public_key@,
            message@,
            sig@,
        )),
{
    let pk_arr: [u8; 32] = public_key.as_slice().try_into().unwrap();
    let sig_arr: [u8; 64] = sig.as_slice().try_into().unwrap();
    match ed25519_dalek::VerifyingKey::from_bytes(&pk_arr) {
        Ok(vk) => ed25519_dalek::Verifier::verify(
            &vk,
            message.as_slice(),
            &ed25519_dalek::Signature::from_bytes(&sig_arr),
        ).is_ok(),
        Err(_) => false,
    }
}

/// Relies on `x25519_dalek::StaticSecret::random_from_rng` drawing from the OS
/// CSPRNG. Random: nothing is promised beyond the length.
#[verifier::external_body]
fn x25519_generate() -> (r: Vec<u8>)
    ensures
        r@.len() == 32,
{
    let secret = x25519_dalek::StaticSecret::random_from_rng(rand::rngs::OsRng);
    secret.to_bytes().to_vec()
}

/// Relies on `x25519_dalek::PublicKey::from(&StaticSecret)`: the public share
/// is a function of the secret bytes alone (clamping included).
#[verifier::external_body]
fn x25519_public_key(secret: &Vec<u8>) -> (r: Vec<u8>)
    requires
        secret@.len() == 32,
    ensures
        r@ == x25519_public_of(secret@),
        r@.len() == 32,
{
    let arr: [u8; 32] = secret.as_slice().try_into().unwrap();
    let secret = x25519_dalek::StaticSecret::from(arr);
    x25519_dalek::PublicKey::from(&secret).to_bytes().to_vec()
}

/// Relies on `x25519_dalek::StaticSecret::diffie_hellman`: the shared secret
/// is a function of the two inputs, 32 bytes, and — the defining property of
/// Diffie-Hellman, which the crate documents — both parties compute the same
/// key from reciprocal shares.
#[verifier::external_body]
fn x25519_diffie_hellman(secret: &Vec<u8>, peer_public: &Vec<u8>) -> (r: Vec<u8>)
    requires
        secret@.len() == 32,
        peer_public@.len() == 32,
    ensures
        r@ == x25519_shared_key(secret@, peer_public@),
        r@.len() == 32,
        forall|other: Seq<u8>|
            peer_public@ == x25519_public_of(other) ==> r@ == x25519_shared_key(
                other,
                x25519_public_of(secret@),
            ),
{
    let sec_arr: [u8; 32] = secret.as_slice().try_into().unwrap();
    let pub_arr: [u8; 32] = peer_public.as_slice().try_into().unwrap();
    let secret = x25519_dalek::StaticSecret::from(sec_arr);
    let peer = x25519_dalek::PublicKey::from(pub_arr);
    secret.diffie_hellman(&peer).to_bytes().to_vec()
}

/// Relies on `chacha20poly1305::ChaCha20Poly1305::encrypt`: deterministic in
/// key, nonce and plaintext; output is plaintext length plus the 16-byte tag;
/// and — AEAD correctness, as the crate documents — `decrypt` under the same
/// key and nonce recovers the plaintext. Cannot fail below the plaintext
/// bound.
#[verifier::external_body]
fn chacha_encrypt(key: &Vec<u8>, nonce: &Vec<u8>, plaintext: &Vec<u8>) -> (r: Vec<u8>)
    requires
        key@.len() == 32,
        nonce@.len() == 12,
        fits_plaintext(plaintext@.len()),
    ensures
        r@ == chacha_seal(key@, nonce@, plaintext@),
        r@.len() == plaintext@.len() + 16,
        chacha_open(key@, nonce@, r@) == Some(plaintext@),
{
    let cipher = <chacha20poly1305::ChaCha20Poly1305 as chacha20poly1305::KeyInit>::new(
        chacha20poly1305::Key::from_slice(key.as_slice()),
    );
    chacha20poly1305::aead::Aead::encrypt(
        &cipher,
        chacha20poly1305::Nonce::from_slice(nonce.as_slice()),
        plaintext.as_slice(),
    ).unwrap()
}

/// Relies on `chacha20poly1305::ChaCha20Poly1305::decrypt`: deterministic in
/// key, nonce and ciphertext; fails exactly when the tag does not
/// authenticate.
#[verifier::external_body]
fn chacha_decrypt(key: &Vec<u8>, nonce: &Vec<u8>, ciphertext: &Vec<u8>) -> (r: Option<Vec<u8>>)
    requires
        key@.len() == 32,
        nonce@.len() == 12,
    ensures
        match r {
            Some(p) => chacha_open(key@, nonce@, ciphertext@) == Some(p@),
            None => chacha_open(key@, nonce@, ciphertext@) is None,
        },
{
    let cipher = <chacha20poly1305::ChaCha20Poly1305 as chacha20poly1305::KeyInit>::new(
        chacha20poly1305::Key::from_slice(key.as_slice()),
    );
    chacha20poly1305::aead::Aead::decrypt(
        &cipher,
        chacha20poly1305::Nonce::from_slice(nonce.as_slice()),
        ciphertext.as_slice(),
    ).ok()
}

/// Relies on `rand::random` filling 12 bytes from a CSPRNG. Random: nothing is
/// promised beyond the length.
#[verifier::external_body]
fn random_nonce() -> (r: Vec<u8>)
    ensures
        r@.len() == 12,
{
    rand::random::<[u8; 12]>().to_vec()
}

/// Relies on `String::from_utf8`: succeeds exactly on valid UTF-8, returning
/// the characters those bytes encode.
#[verifier::external_body]
fn bytes_to_string(v: Vec<u8>) -> (r: Option<String>)
    ensures
        match r {
            Some(s) => valid_utf8(v@) && s@ == decode_utf8(v@),
            None => !valid_utf8(v@),
        },
{
    String::from_utf8(v).ok()
}

/// A copy of a byte vector.
pub(crate) fn clone_bytes(v: &Vec<u8>) -> (r: Vec<u8>)
    ensures
        r@ == v@,
{
    let mut out: Vec<u8> = Vec::new();
    let mut i: usize = 0;
    while i < v.len()
        invariant
            i <= v@.len(),
            out@ == v@.take(i as int),
        decreases v@.len() - i,
    {
        out.push(v[i]);
        i = i + 1;
        assert(out@ =~= v@.take(i as int));
    }
    assert(out@ =~= v@);
    out
}

/// One process instance's identity: a signing keypair and a key-agreement
/// keypair, generated once and never persisted.
pub struct CryptoManager {
    signing_secret: Vec<u8>,
    agreement_secret: Vec<u8>,
}

impl CryptoManager {
    /// The signing secret bytes.
    pub closed spec fn spec_signing_secret(&self) -> Seq<u8> {
        self.signing_secret@
    }

    /// The agreement secret bytes.
    pub closed spec fn spec_agreement_secret(&self) -> Seq<u8> {
        self.agreement_secret@
    }

    /// Secrets have their generated length, and the derived verifying key is
    /// a valid key point.
    pub open spec fn wf(&self) -> bool {
        &&& self.spec_signing_secret().len() == 32
        &&& self.spec_agreement_secret().len() == 32
        &&& self.spec_signing_public().len() == 32
        &&& ed25519_valid_public_key(self.spec_signing_public())
    }

    /// The identity's Ed25519 verifying key bytes.
    pub open spec fn spec_signing_public(&self) -> Seq<u8> {
        ed25519_public_of(self.spec_signing_secret())
    }

    /// The identity's X25519 public share bytes.
    pub open spec fn spec_agreement_public(&self) -> Seq<u8> {
        x25519_public_of(self.spec_agreement_secret())
    }

    /// A fresh identity with independently generated signing and agreement
    /// keypairs.
    pub fn new() -> (r: CryptoManager)
        ensures
            r.wf(),
    {
        let signing_secret = ed25519_generate();
        let signing_public = ed25519_public_key(&signing_secret);
        let agreement_secret = x25519_generate();
        CryptoManager { signing_secret, agreement_secret }
    }

    /// The signing (Ed25519) public key, published for signature checks.
    pub fn get_ed25519_public_key(&self) -> (r: Vec<u8>)
        requires
            self.wf(),
        ensures
            r@ == self.spec_signing_public(),
            r@.len() == 32,
            ed25519_valid_public_key(r@),
    {
        ed25519_public_key(&self.signing_secret)
    }

    /// The agreement (X25519) public share, published for key derivation.
    pub fn get_x25519_public_key(&self) -> (r: Vec<u8>)
        requires
            self.wf(),
        ensures
            r@ == self.spec_agreement_public(),
            r@.len() == 32,
    {
        x25519_public_key(&self.agreement_secret)
    }

    /// Sign a message. The result is deterministic in the secret and the
    /// message, and always verifies under this identity's public key.
    pub fn sign(&self, message: &Vec<u8>) -> (r: Vec<u8>)
        requires
            self.wf(),
        ensures
            r@ == ed25519_signature_of(self.spec_signing_secret(), message@),
            signature_checks(self.spec_signing_public(), message@, r@),
    {
        ed25519_sign(&self.signing_secret, message)
    }

    /// Check a signature over a message under a peer's public key bytes.
    /// Succeeds exactly when the key parses and the signature verifies.
    pub fn verify(&self, message: &Vec<u8>, sig: &Vec<u8>, public_key: &Vec<u8>) -> (r: Result<
        (),
        CryptoError,
    >)
        ensures
            r is Ok <==> signature_checks(public_key@, message@, sig@),
            r is Err ==> r == Err::<(), CryptoError>(CryptoError::SignatureInvalid),
    {
        if public_key.len() != 32 || sig.len() != 64 {
            return Err(CryptoError::SignatureInvalid);
        }
        if ed25519_verify_raw(public_key, message, sig) {
            Ok(())
        } else {
            Err(CryptoError::SignatureInvalid)
        }
    }

    /// The symmetric key this identity shares with the holder of
    /// `peer_public`'s secret: both parties derive the identical key from
    /// reciprocal shares.
    pub fn derive_shared_key(&self, peer_public: &Vec<u8>) -> (r: Vec<u8>)
        requires
            self.wf(),
            peer_public@.len() == 32,
        ensures
            r@ == x25519_shared_key(self.spec_agreement_secret(), peer_public@),
            r@.len() == 32,
            forall|other: Seq<u8>|
                peer_public@ == x25519_public_of(other) ==> r@ == x25519_shared_key(
                    other,
                    self.spec_agreement_public(),
                ),
    {
        x25519_diffie_hellman(&self.agreement_secret, peer_public)
    }

    /// Encrypt a text message for the holder of `recipient_public`'s secret:
    /// a fresh 12-byte nonce, then the AEAD output, so that opening the tail
    /// under the shared key and that nonce gives back exactly the message
    /// bytes.
    pub fn encrypt_message(&self, recipient_public: &Vec<u8>, message: &str) -> (r: Vec<u8>)
        requires
            self.wf(),
            recipient_public@.len() == 32,
            fits_plaintext(encode_utf8(message@).len()),
        ensures
            ({
                let key = x25519_shared_key(self.spec_agreement_secret(), recipient_public@);
                &&& r@.len() == encode_utf8(message@).len() + 28
                &&& r@.skip(12) == chacha_seal(key, r@.take(12), encode_utf8(message@))
                &&& chacha_open(key, r@.take(12), r@.skip(12)) == Some(encode_utf8(message@))
            }),
            forall|other: Seq<u8>|
                recipient_public@ == x25519_public_of(other) ==> x25519_shared_key(
                    self.spec_agreement_secret(),
                    recipient_public@,
                ) == x25519_shared_key(other, self.spec_agreement_public()),
    {
        let key = self.derive_shared_key(recipient_public);
        let nonce = random_nonce();
        let plaintext = message.as_bytes_vec();
        let sealed = chacha_encrypt(&key, &nonce, &plaintext);
        let mut out = clone_bytes(&nonce);
        let mut tail = sealed;
        out.append(&mut tail);
        proof {
            assert(out@.take(12) =~= nonce@);
            assert(out@.skip(12) =~= chacha_seal(key@, nonce@, encode_utf8(message@)));
        }
        out
    }

    /// Decrypt `nonce||ciphertext` from the holder of `sender_public`'s
    /// secret. Fails closed: a short input, a tag mismatch, and non-text
    /// plaintext each yield their own error, never partial plaintext.
    pub fn decrypt_message(&self, sender_public: &Vec<u8>, encrypted_data: &Vec<u8>) -> (r: Result<
        String,
        CryptoError,
    >)
        requires
            self.wf(),
            sender_public@.len() == 32,
        ensures
            ({
                let key = x25519_shared_key(self.spec_agreement_secret(), sender_public@);
                let opened = chacha_open(key, encrypted_data@.take(12), encrypted_data@.skip(12));
                match r {
                    Ok(s) => encrypted_data@.len() >= 12 && opened == Some(encode_utf8(s@)) && s@
                        == decode_utf8(opened->0),
                    Err(CryptoError::TooShort) => encrypted_data@.len() < 12,
                    Err(CryptoError::AuthenticationFailure) => encrypted_data@.len() >= 12
                        && opened is None,
                    Err(CryptoError::InvalidUtf8) => encrypted_data@.len() >= 12 && opened is Some
                        && !valid_utf8(opened->0),
                    Err(CryptoError::SignatureInvalid) => false,
                }
            }),
            forall|other: Seq<u8>|
                sender_public@ == x25519_public_of(other) ==> x25519_shared_key(
                    self.spec_agreement_secret(),
                    sender_public@,
                ) == x25519_shared_key(other, self.spec_agreement_public()),
    {
        broadcast use vstd::utf8::encode_utf8_decode_utf8;

        let key = self.derive_shared_key(sender_public);
        if encrypted_data.len() < 12 {
            return Err(CryptoError::TooShort);
        }
        let mut nonce: Vec<u8> = Vec::new();
        let mut i: usize = 0;
        while i < 12
            invariant
                i <= 12,
                encrypted_data@.len() >= 12,
                nonce@ == encrypted_data@.take(i as int),
            decreases 12 - i,
        {
            nonce.push(encrypted_data[i]);
            i = i + 1;
            assert(nonce@ =~= encrypted_data@.take(i as int));
        }
        let mut body: Vec<u8> = Vec::new();
        let mut j: usize = 12;
        while j < encrypted_data.len()
            invariant
                12 <= j <= encrypted_data@.len(),
                body@ == encrypted_data@.subrange(12, j as int),
            decreases encrypted_data@.len() - j,
        {
            body.push(encrypted_data[j]);
            j = j + 1;
            assert(body@ =~= encrypted_data@.subrange(12, j as int));
        }
        assert(body@ =~= encrypted_data@.skip(12));
        match chacha_decrypt(&key, &nonce, &body) {
            Some(plain) => {
                let ghost plain_view = plain@;
                match bytes_to_string(plain) {
                    Some(s) => {
                        proof {
                            vstd::utf8::decode_utf8_encode_utf8(plain_view);
                        }
                        Ok(s)
                    },
                    None => Err(CryptoError::InvalidUtf8),
                }
            },
            None => Err(CryptoError::AuthenticationFailure),
        }
    }
}

/// The shared-secret symmetry and AEAD round-trip law: a message one identity
/// encrypts with the key it derives from the peer's public share, the peer
/// decrypts with the key it derives from the first identity's public share,
/// and the plaintext comes back exactly.
pub fn pairwise_round_trip(a: &CryptoManager, b: &CryptoManager, message: &str) -> (r: Result<
    String,
    CryptoError,
>)
    requires
        a.wf(),
        b.wf(),
        fits_plaintext(encode_utf8(message@).len()),
    ensures
        r matches Ok(s) && s@ == message@,
{
    broadcast use vstd::utf8::encode_utf8_decode_utf8;
    broadcast use vstd::utf8::encode_utf8_valid_utf8;

    let b_public = b.get_x25519_public_key();
    let a_public = a.get_x25519_public_key();
    let ciphertext = a.encrypt_message(&b_public, message);
    let r = b.decrypt_message(&a_public, &ciphertext);
    proof {
        let key_a = x25519_shared_key(a.spec_agreement_secret(), b.spec_agreement_public());
        let key_b = x25519_shared_key(b.spec_agreement_secret(), a.spec_agreement_public());
        assert(key_a == key_b);
        assert(chacha_open(key_b, ciphertext@.take(12), ciphertext@.skip(12)) == Some(
            encode_utf8(message@),
        ));
    }
    r
}

} // verus!
