//! The cryptographic primitives that the encryption layer calls: X25519 key
//! agreement, HKDF-SHA256 and AES-256-GCM, and the system's random source.
use vstd::prelude::*;
use aes_gcm::aead::{Aead, KeyInit, OsRng};
use rand::RngCore;

verus! {

/// The largest plaintext, in bytes, that AES-GCM encrypts.
pub open spec fn aes_gcm_max_plaintext() -> int {
    0x10_0000_0000
}

/// The X25519 public key of a 32-byte secret.
pub uninterp spec fn x25519_public(secret: Seq<u8>) -> Seq<u8>;

/// The X25519 shared secret of a secret and the other side's public key.
pub uninterp spec fn x25519_shared(secret: Seq<u8>, their_public: Seq<u8>) -> Seq<u8>;

/// The 32 bytes of output keying material of HKDF-SHA256 with the given salt
/// (none: the default salt), input keying material and info.
pub uninterp spec fn hkdf_sha256_32(salt: Option<Seq<u8>>, ikm: Seq<u8>, info: Seq<u8>) -> Seq<u8>;

/// The AES-256-GCM ciphertext, with its tag appended, of `plaintext`.
pub uninterp spec fn aes256_gcm_seal(key: Seq<u8>, nonce: Seq<u8>, plaintext: Seq<u8>) -> Seq<u8>;

/// The plaintext that AES-256-GCM authenticates and decrypts from
/// `ciphertext`, or `None` when it does not authenticate.
pub uninterp spec fn aes256_gcm_open(key: Seq<u8>, nonce: Seq<u8>, ciphertext: Seq<u8>) -> Option<Seq<u8>>;

/// The view of an optional byte slice.
pub open spec fn opt_bytes(o: Option<&[u8]>) -> Option<Seq<u8>> {
    match o {
        Some(s) => Some(s@),
        None => None,
    }
}

/// `x25519_dalek::PublicKey::from(&StaticSecret::from(secret))`: the public key
/// of a secret.
#[verifier::external_body]
pub(crate) fn x25519_public_key(secret: &[u8; 32]) -> (r: [u8; 32])
    ensures
        r@ == x25519_public(secret@),
{
    let s = x25519_dalek::StaticSecret::from(*secret);
    x25519_dalek::PublicKey::from(&s).to_bytes()
}

/// `x25519_dalek::StaticSecret::diffie_hellman`: the shared secret of our
/// secret and their public key. As the crate documents, both sides of an
/// exchange compute the same secret: for any secret `e` whose public key is
/// `their_public`, it equals what `e` agrees with our public key.
#[verifier::external_body]
pub(crate) fn x25519_agree(secret: &[u8; 32], their_public: &[u8; 32]) -> (r: [u8; 32])
    ensures
        r@ == x25519_shared(secret@, their_public@),
        forall|e: Seq<u8>|
            e.len() == 32 && their_public@ == x25519_public(e) ==> r@ == #[trigger] x25519_shared(
                e,
                x25519_public(secret@),
            ),
{
    let s = x25519_dalek::StaticSecret::from(*secret);
    *s.diffie_hellman(&x25519_dalek::PublicKey::from(*their_public)).as_bytes()
}

/// `x25519_dalek::EphemeralSecret::random_from_rng(OsRng)`, its public key, and
/// its `diffie_hellman` with `their_public`: a fresh random secret that is
/// used once. The secret itself is not returned; what holds of every outcome
/// is that both results come from one 32-byte secret.
#[verifier::external_body]
pub(crate) fn x25519_ephemeral_agree(their_public: &[u8; 32]) -> (agreed: EphemeralAgreement)
    ensures
        is_ephemeral_agreement(agreed.public@, agreed.shared@, their_public@),
{
    let eph = x25519_dalek::EphemeralSecret::random_from_rng(OsRng);
    let public = x25519_dalek::PublicKey::from(&eph);
    let shared = eph.diffie_hellman(&x25519_dalek::PublicKey::from(*their_public));
    EphemeralAgreement { public: public.to_bytes(), shared: *shared.as_bytes() }
}

/// `public` and `shared` come from one 32-byte secret `e`: `public` is its
/// public key and `shared` what it agrees with `their_public`.
pub open spec fn is_ephemeral_agreement(public: Seq<u8>, shared: Seq<u8>, their_public: Seq<u8>) -> bool {
    exists|e: Seq<u8>|
        e.len() == 32 && public == #[trigger] x25519_public(e) && shared == x25519_shared(e, their_public)
}

/// The public key of a one-use secret and the secret it agreed with the other
/// side.
pub struct EphemeralAgreement {
    pub public: [u8; 32],
    pub shared: [u8; 32],
}

/// `x25519_dalek::StaticSecret::random_from_rng(OsRng)`, as bytes: a fresh
/// random secret. Nothing is promised of its value.
#[verifier::external_body]
pub(crate) fn x25519_random_secret() -> (r: [u8; 32])
{
    x25519_dalek::StaticSecret::random_from_rng(OsRng).to_bytes()
}

/// `OsRng::fill_bytes` into a 12-byte nonce. Nothing is promised of its value.
#[verifier::external_body]
pub(crate) fn random_nonce() -> (r: [u8; 12])
{
    let mut n = [0u8; 12];
    OsRng.fill_bytes(&mut n);
    n
}

/// `hkdf::Hkdf::<Sha256>::new(salt, ikm)` followed by `expand(info, ..)` into
/// 32 bytes. The crate refuses only outputs longer than 255 hash lengths, so
/// a 32-byte expansion always succeeds.
#[verifier::external_body]
pub(crate) fn hkdf_sha256_expand32(salt: Option<&[u8]>, ikm: &[u8], info: &[u8]) -> (r: Option<[u8; 32]>)
    ensures
        r is Some,
        r->0@ == hkdf_sha256_32(opt_bytes(salt), ikm@, info@),
{
    let hk = hkdf::Hkdf::<sha2::Sha256>::new(salt, ikm);
    let mut okm = [0u8; 32];
    match hk.expand(info, &mut okm) {
        Ok(()) => Some(okm),
        Err(_) => None,
    }
}

/// `aes_gcm::Aes256Gcm::encrypt` without associated data. The crate refuses
/// plaintexts longer than 2^36 bytes and otherwise returns the ciphertext with
/// its 16-byte tag; as for any AEAD, decrypting it with the same key and nonce
/// gives the plaintext back.
#[verifier::external_body]
pub(crate) fn aes256_gcm_encrypt(key: &[u8; 32], nonce: &[u8; 12], plaintext: &[u8]) -> (r: Option<Vec<u8>>)
    ensures
        r is Some <==> plaintext@.len() <= aes_gcm_max_plaintext(),
        r matches Some(c) ==> {
            &&& c@ == aes256_gcm_seal(key@, nonce@, plaintext@)
            &&& c@.len() == plaintext@.len() + 16
            &&& aes256_gcm_open(key@, nonce@, c@) == Some(plaintext@)
        },
{
    let cipher = aes_gcm::Aes256Gcm::new(key.into());
    cipher.encrypt(aes_gcm::Nonce::from_slice(nonce), plaintext).ok()
}

/// `aes_gcm::Aes256Gcm::decrypt` without associated data; an authentication
/// failure becomes `None`.
#[verifier::external_body]
pub(crate) fn aes256_gcm_decrypt(key: &[u8; 32], nonce: &[u8; 12], ciphertext: &[u8]) -> (r: Option<Vec<u8>>)
    ensures
        match r {
            Some(p) => aes256_gcm_open(key@, nonce@, ciphertext@) == Some(p@),
            None => aes256_gcm_open(key@, nonce@, ciphertext@) is None,
        },
{
    let cipher = aes_gcm::Aes256Gcm::new(key.into());
    cipher.decrypt(aes_gcm::Nonce::from_slice(nonce), ciphertext).ok()
}

} // verus!
