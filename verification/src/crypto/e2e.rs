//! End-to-end encryption: X25519 key agreement, HKDF-SHA256 key derivation
//! and AES-256-GCM. Direct messages use a fresh ephemeral key per message for
//! forward secrecy; group channels use a key derived from the topic.
use vstd::prelude::*;
use crate::keyed::{lookup, unique_keys, find_key, upsert};
use crate::crypto::primitives::{
    x25519_public, x25519_shared, hkdf_sha256_32, aes256_gcm_seal, aes256_gcm_open,
    aes_gcm_max_plaintext, x25519_public_key, x25519_agree, x25519_ephemeral_agree,
    x25519_random_secret, random_nonce, hkdf_sha256_expand32, aes256_gcm_encrypt,
    aes256_gcm_decrypt,
};

verus! {

/// Why an encryption operation failed.
#[derive(Debug)]
pub enum CryptoError {
    /// The stored static secret is not 32 bytes long.
    InvalidStoredKey,
    /// No public key is known for this peer.
    UnknownPeer(String),
    /// Key derivation failed.
    KeyDerivation,
    /// Encryption failed: the plaintext is too long.
    Encryption,
    /// Decryption failed: the ciphertext does not authenticate.
    Decryption,
}

/// An encrypted message.
#[derive(Debug)]
pub struct EncryptedEnvelope {
    /// The sender's ephemeral public key for this message (zeros for group
    /// messages).
    pub ephemeral_pubkey: [u8; 32],
    /// The AES-256-GCM nonce.
    pub nonce: [u8; 12],
    /// The ciphertext with its tag.
    pub ciphertext: Vec<u8>,
    /// The sender's long-term public key.
    pub sender_pubkey: [u8; 32],
}

impl Clone for EncryptedEnvelope {
    fn clone(&self) -> (r: Self)
        ensures
            r.ephemeral_pubkey == self.ephemeral_pubkey,
            r.nonce == self.nonce,
            r.ciphertext@ == self.ciphertext@,
            r.sender_pubkey == self.sender_pubkey,
    {
        let ciphertext = self.ciphertext.clone();
        assert(ciphertext@ =~= self.ciphertext@);
        EncryptedEnvelope {
            ephemeral_pubkey: self.ephemeral_pubkey,
            nonce: self.nonce,
            ciphertext,
            sender_pubkey: self.sender_pubkey,
        }
    }
}

/// A symmetric key of a server's group channels.
#[derive(Debug, Clone)]
pub struct GroupKey {
    pub server_id: String,
    pub key: [u8; 32],
    pub version: u64,
}

/// The HKDF info for session keys: the bytes of `murmur-session-v1`.
pub open spec fn session_info() -> Seq<u8> {
    seq![109u8, 117, 114, 109, 117, 114, 45, 115, 101, 115, 115, 105, 111, 110, 45, 118, 49]
}

/// The HKDF info for direct-message keys: the bytes of `murmur-msg-v1`.
pub open spec fn message_info() -> Seq<u8> {
    seq![109u8, 117, 114, 109, 117, 114, 45, 109, 115, 103, 45, 118, 49]
}

/// The HKDF input keying material of group keys: the bytes of `murmur-group-v1`.
pub open spec fn group_ikm() -> Seq<u8> {
    seq![109u8, 117, 114, 109, 117, 114, 45, 103, 114, 111, 117, 112, 45, 118, 49]
}

/// The HKDF info for group keys: the bytes of `group-key`.
pub open spec fn group_info() -> Seq<u8> {
    seq![103u8, 114, 111, 117, 112, 45, 107, 101, 121]
}

/// The session key of a pair of peers, from their X25519 shared secret.
pub open spec fn session_key_of(shared: Seq<u8>) -> Seq<u8> {
    hkdf_sha256_32(None, shared, session_info())
}

/// The key of a direct message: HKDF-SHA256 of the shared secret of its
/// ephemeral key, salted with the shared secret of the sender's and the
/// recipient's long-term keys. The salt binds the sender's key: only the
/// holder of the sender's secret (or of the recipient's) computes it.
pub open spec fn message_key_of(ephemeral_shared: Seq<u8>, static_shared: Seq<u8>) -> Seq<u8> {
    hkdf_sha256_32(Some(static_shared), ephemeral_shared, message_info())
}

/// The group key of a topic: HKDF with the topic's UTF-8 bytes as salt.
pub open spec fn group_key_of(topic: Seq<char>) -> Seq<u8> {
    hkdf_sha256_32(Some(vstd::utf8::encode_utf8(topic)), group_ikm(), group_info())
}

/// The value of the last entry stored for `k` that is 32 bytes long.
pub open spec fn stored_key_for(stored: Seq<(String, Vec<u8>)>, k: Seq<char>) -> Option<Seq<u8>>
    decreases stored.len(),
{
    if stored.len() == 0 {
        None
    } else if stored.last().0@ == k && stored.last().1@.len() == 32 {
        Some(stored.last().1@)
    } else {
        stored_key_for(stored.drop_last(), k)
    }
}

/// What decrypting a direct-message envelope gives with a static secret: the
/// key is derived from the envelope's ephemeral key and from the sender key
/// that the envelope names.
pub open spec fn open_envelope(secret: Seq<u8>, env: EncryptedEnvelope) -> Option<Seq<u8>> {
    aes256_gcm_open(
        message_key_of(x25519_shared(secret, env.ephemeral_pubkey@), x25519_shared(secret, env.sender_pubkey@)),
        env.nonce@,
        env.ciphertext@,
    )
}

/// `env` is an encryption of `plaintext` for the holder of `peer_public`, by
/// the holder of `sender_secret`: it names the sender's public key, its
/// ephemeral key comes from some secret `e`, and its ciphertext (the
/// plaintext and a 16-byte tag) is sealed with the key of `e` and of the
/// sender's secret agreed with `peer_public`.
pub open spec fn is_peer_envelope(
    env: EncryptedEnvelope,
    sender_secret: Seq<u8>,
    peer_public: Seq<u8>,
    plaintext: Seq<u8>,
) -> bool {
    &&& env.sender_pubkey@ == x25519_public(sender_secret)
    &&& env.ciphertext@.len() == plaintext.len() + 16
    &&& exists|e: Seq<u8>|
        e.len() == 32 && env.ephemeral_pubkey@ == #[trigger] x25519_public(e) && {
            let k = message_key_of(x25519_shared(e, peer_public), x25519_shared(sender_secret, peer_public));
            &&& env.ciphertext@ == aes256_gcm_seal(k, env.nonce@, plaintext)
            &&& aes256_gcm_open(k, env.nonce@, env.ciphertext@) == Some(plaintext)
        }
}

/// `env` is an encryption of `plaintext` for the channel `topic`, from
/// `sender_public`.
pub open spec fn is_group_envelope(
    env: EncryptedEnvelope,
    sender_public: Seq<u8>,
    topic: Seq<char>,
    plaintext: Seq<u8>,
) -> bool {
    &&& env.sender_pubkey@ == sender_public
    &&& env.ephemeral_pubkey@ == Seq::new(32, |i: int| 0u8)
    &&& env.ciphertext@ == aes256_gcm_seal(group_key_of(topic), env.nonce@, plaintext)
    &&& aes256_gcm_open(group_key_of(topic), env.nonce@, env.ciphertext@) == Some(plaintext)
}


/// What a group envelope decrypts to under a topic's group key.
pub open spec fn group_open(topic: Seq<char>, env: EncryptedEnvelope) -> Option<Seq<u8>> {
    aes256_gcm_open(group_key_of(topic), env.nonce@, env.ciphertext@)
}

/// A group message decrypts, for every member of the channel, to the
/// plaintext it was encrypted from: every envelope `encrypt_for_group` returns
/// for a topic opens, under that topic's group key, to its plaintext.
pub proof fn lemma_group_roundtrip(env: EncryptedEnvelope, sender_public: Seq<u8>, topic: Seq<char>, plaintext: Seq<u8>)
    requires
        is_group_envelope(env, sender_public, topic, plaintext),
    ensures
        group_open(topic, env) == Some(plaintext),
{
}

/// A direct message decrypts, at the peer it was encrypted for, to its
/// plaintext: for every envelope that `encrypt_for_peer` returns with the
/// recipient's public key, every result that `decrypt_envelope` may give the
/// recipient for it is that plaintext.
pub proof fn lemma_direct_message_roundtrip(
    env: EncryptedEnvelope,
    sender: E2ECrypto,
    recipient: E2ECrypto,
    plaintext: Seq<u8>,
    r: Result<Vec<u8>, CryptoError>,
)
    requires
        is_peer_envelope(env, sender.secret(), recipient.public(), plaintext),
        recipient.decrypt_envelope_post(env, r),
    ensures
        r matches Ok(v) && v@ == plaintext,
{
    sender.lemma_secret_len();
    let sender_secret = sender.secret();
    let e = choose|e: Seq<u8>|
        e.len() == 32 && env.ephemeral_pubkey@ == #[trigger] x25519_public(e) && {
            let k = message_key_of(x25519_shared(e, recipient.public()), x25519_shared(sender_secret, recipient.public()));
            &&& env.ciphertext@ == aes256_gcm_seal(k, env.nonce@, plaintext)
            &&& aes256_gcm_open(k, env.nonce@, env.ciphertext@) == Some(plaintext)
        };
    assert(env.ephemeral_pubkey@ == x25519_public(e));
    assert(env.sender_pubkey@ == x25519_public(sender_secret));
}

/// The sender's key is bound into a direct message: what an envelope opens
/// to depends on the sender key it names, as the message key is salted with
/// the long-term secret agreed with that key. Two envelopes that differ only
/// in the sender key they name are opened under the keys agreed with each.
pub proof fn lemma_sender_key_bound(secret: Seq<u8>, env: EncryptedEnvelope, other_sender: [u8; 32])
    ensures
        open_envelope(secret, EncryptedEnvelope { sender_pubkey: other_sender, ..env }) == aes256_gcm_open(
            message_key_of(x25519_shared(secret, env.ephemeral_pubkey@), x25519_shared(secret, other_sender@)),
            env.nonce@,
            env.ciphertext@,
        ),
{
}

/// What `E2ECrypto::new` gives for a stored static secret and stored peer
/// keys: without a stored secret a fresh one, also returned to be saved; a
/// stored secret is used as it is, and refused unless it is 32 bytes. The
/// public key is that of the secret; the peer keys are the last 32-byte
/// entry stored for each peer; no session keys are derived yet.
pub open spec fn loaded_with(
    stored_secret: Option<Seq<u8>>,
    stored_peer_keys: Seq<(String, Vec<u8>)>,
    r: Result<(E2ECrypto, Option<Seq<u8>>), CryptoError>,
) -> bool {
    &&& match stored_secret {
        Some(b) => b.len() != 32 <==> r is Err,
        None => r is Ok,
    }
    &&& r matches Err(e) ==> e is InvalidStoredKey
    &&& r matches Ok((c, fresh)) ==> {
        &&& c.public() == x25519_public(c.secret())
        &&& match stored_secret {
            Some(b) => c.secret() == b && fresh is None,
            None => fresh matches Some(f) && f == c.secret() && f.len() == 32,
        }
        &&& forall|k: Seq<char>| #[trigger] c.peer_key(k) == stored_key_for(stored_peer_keys, k)
        &&& forall|k: Seq<char>| #[trigger] c.session_key(k) is None
    }
}

/// A saved secret gives back the same identity: the state made again from
/// the secret that a fresh state returned to be saved is made, and has the
/// same public key.
pub proof fn lemma_reload_same_public_key(
    first: E2ECrypto,
    saved: Seq<u8>,
    keys_first: Seq<(String, Vec<u8>)>,
    keys_again: Seq<(String, Vec<u8>)>,
    again: Result<(E2ECrypto, Option<Seq<u8>>), CryptoError>,
)
    requires
        loaded_with(None, keys_first, Ok((first, Some(saved)))),
        loaded_with(Some(saved), keys_again, again),
    ensures
        again matches Ok((c, fresh)) && fresh is None && c.public() == first.public(),
{
}

/// The end-to-end encryption state of this node: its long-term X25519 key,
/// the public keys of known peers and the session keys derived with them.
pub struct E2ECrypto {
    static_secret: [u8; 32],
    public_key: [u8; 32],
    session_keys: Vec<(String, [u8; 32])>,
    peer_keys: Vec<(String, [u8; 32])>,
}

impl E2ECrypto {
    #[verifier::type_invariant]
    spec fn inv(self) -> bool {
        &&& self.public_key@ == x25519_public(self.static_secret@)
        &&& unique_keys(self.session_keys@)
        &&& unique_keys(self.peer_keys@)
    }

    /// The long-term secret.
    pub closed spec fn secret(self) -> Seq<u8> {
        self.static_secret@
    }

    /// The long-term secret is 32 bytes long.
    pub proof fn lemma_secret_len(self)
        ensures
            self.secret().len() == 32,
    {
    }

    /// The long-term public key.
    pub closed spec fn public(self) -> Seq<u8> {
        self.public_key@
    }

    /// The public key known for a peer.
    pub closed spec fn peer_key(self, peer_id: Seq<char>) -> Option<Seq<u8>> {
        match lookup(self.peer_keys@, peer_id) {
            Some(k) => Some(k@),
            None => None,
        }
    }

    /// The session key derived with a peer.
    pub closed spec fn session_key(self, peer_id: Seq<char>) -> Option<Seq<u8>> {
        match lookup(self.session_keys@, peer_id) {
            Some(k) => Some(k@),
            None => None,
        }
    }


    /// What decrypting `env` with this state gives: the plaintext that
    /// AES-256-GCM authenticates under the key derived from our static secret
    /// agreed with the envelope's ephemeral key and with the sender key it
    /// names, else a decryption error. Since both sides of X25519 agree, the
    /// same holds with the key derived from any secrets `e` of the ephemeral
    /// key and `s` of the sender key, agreed with our public key.
    pub open spec fn decrypt_envelope_post(self, env: EncryptedEnvelope, r: Result<Vec<u8>, CryptoError>) -> bool {
        &&& match open_envelope(self.secret(), env) {
            Some(p) => r matches Ok(v) && v@ == p,
            None => r matches Err(e) && e is Decryption,
        }
        &&& forall|e: Seq<u8>, s: Seq<u8>|
            e.len() == 32 && s.len() == 32 && env.ephemeral_pubkey@ == #[trigger] x25519_public(e)
                && env.sender_pubkey@ == #[trigger] x25519_public(s) ==> match aes256_gcm_open(
                message_key_of(x25519_shared(e, self.public()), x25519_shared(s, self.public())),
                env.nonce@,
                env.ciphertext@,
            ) {
                Some(p) => r matches Ok(v) && v@ == p,
                None => r is Err,
            }
    }

    /// The state made from a static secret and stored peer keys: without a
    /// stored secret a fresh random one is made and also returned, to be
    /// saved; a stored secret that is not 32 bytes is refused. Stored peer
    /// keys that are not 32 bytes are skipped; for a peer stored twice the
    /// later key counts. No session keys are derived yet.
    pub fn new(
        stored_secret: Option<Vec<u8>>,
        stored_peer_keys: Vec<(String, Vec<u8>)>,
    ) -> (r: Result<(Self, Option<[u8; 32]>), CryptoError>)
        ensures
            loaded_with(
                match stored_secret { Some(b) => Some(b@), None => None },
                stored_peer_keys@,
                match r {
                    Ok((c, fresh)) => Ok((c, match fresh { Some(f) => Some(f@), None => None })),
                    Err(e) => Err(e),
                },
            ),
    {
        let (secret, fresh) = match stored_secret {
            Some(b) => {
                if b.len() != 32 {
                    return Err(CryptoError::InvalidStoredKey);
                }
                (to_array32(b.as_slice()), None)
            },
            None => {
                let s = x25519_random_secret();
                (s, Some(s))
            },
        };
        let public_key = x25519_public_key(&secret);
        let mut peer_keys: Vec<(String, [u8; 32])> = Vec::new();
        let mut i: usize = 0;
        while i < stored_peer_keys.len()
            invariant
                i <= stored_peer_keys@.len(),
                unique_keys(peer_keys@),
                forall|k: Seq<char>|
                    #[trigger] lookup(peer_keys@, k) matches Some(v) ==> stored_key_for(
                        stored_peer_keys@.take(i as int),
                        k,
                    ) == Some(v@),
                forall|k: Seq<char>|
                    #[trigger] lookup(peer_keys@, k) is None ==> stored_key_for(
                        stored_peer_keys@.take(i as int),
                        k,
                    ) is None,
            decreases stored_peer_keys@.len() - i,
        {
            let ghost before = peer_keys@;
            assert(stored_peer_keys@.take(i as int + 1).drop_last() =~= stored_peer_keys@.take(i as int));
            if stored_peer_keys[i].1.len() == 32 {
                let key = to_array32(stored_peer_keys[i].1.as_slice());
                upsert(&mut peer_keys, &stored_peer_keys[i].0, key);
            }
            i = i + 1;
        }
        assert(stored_peer_keys@.take(i as int) =~= stored_peer_keys@);
        let c = E2ECrypto { static_secret: secret, public_key, session_keys: Vec::new(), peer_keys };
        Ok((c, fresh))
    }

    /// Registers a peer's public key and derives the session key with it:
    /// HKDF-SHA256 (default salt, info `murmur-session-v1`) of the X25519
    /// shared secret.
    pub fn register_peer_key(&mut self, peer_id: &str, pubkey: [u8; 32]) -> (r: Result<(), CryptoError>)
        ensures
            r is Ok,
            final(self).secret() == old(self).secret(),
            final(self).public() == old(self).public(),
            final(self).peer_key(peer_id@) == Some(pubkey@),
            final(self).session_key(peer_id@) == Some(
                session_key_of(x25519_shared(old(self).secret(), pubkey@)),
            ),
            forall|k: Seq<char>| k != peer_id@ ==> #[trigger] final(self).peer_key(k) == old(self).peer_key(k),
            forall|k: Seq<char>| k != peer_id@ ==> #[trigger] final(self).session_key(k) == old(self).session_key(k),
    {
        proof { use_type_invariant(&*self); }
        let peer = peer_id.to_owned();
        let mut peer_keys: Vec<(String, [u8; 32])> = Vec::new();
        std::mem::swap(&mut peer_keys, &mut self.peer_keys);
        upsert(&mut peer_keys, &peer, pubkey);
        self.peer_keys = peer_keys;
        let shared = x25519_agree(&self.static_secret, &pubkey);
        let info: Vec<u8> = vec![109u8, 117, 114, 109, 117, 114, 45, 115, 101, 115, 115, 105, 111, 110, 45, 118, 49];
        assert(info@ == session_info());
        let session_key = match hkdf_sha256_expand32(None, shared.as_slice(), info.as_slice()) {
            Some(k) => k,
            None => return Err(CryptoError::KeyDerivation),
        };
        let mut session_keys: Vec<(String, [u8; 32])> = Vec::new();
        std::mem::swap(&mut session_keys, &mut self.session_keys);
        upsert(&mut session_keys, &peer, session_key);
        self.session_keys = session_keys;
        Ok(())
    }

    /// Encrypts a direct message for a peer whose key is registered, with a
    /// fresh ephemeral key: the message key is HKDF-SHA256 (info
    /// `murmur-msg-v1`) of the ephemeral shared secret, salted with the
    /// shared secret of our long-term key and the peer's, and the nonce is
    /// random. Fails for an unknown peer and for a plaintext AES-GCM refuses.
    pub fn encrypt_for_peer(&self, peer_id: &str, plaintext: &[u8]) -> (r: Result<EncryptedEnvelope, CryptoError>)
        ensures
            self.peer_key(peer_id@) is None <==> r matches Err(CryptoError::UnknownPeer(_)),
            r matches Err(CryptoError::UnknownPeer(p)) ==> p@ == peer_id@,
            self.peer_key(peer_id@) is Some ==> (
                plaintext@.len() > aes_gcm_max_plaintext() <==> r matches Err(CryptoError::Encryption)),
            r matches Err(e) ==> e is UnknownPeer || e is Encryption,
            r matches Ok(env) ==> is_peer_envelope(
                env,
                self.secret(),
                self.peer_key(peer_id@)->0,
                plaintext@,
            ),
    {
        proof { use_type_invariant(self); }
        let peer_public = match find_key(&self.peer_keys, peer_id) {
            Some(i) => self.peer_keys[i].1,
            None => return Err(CryptoError::UnknownPeer(peer_id.to_owned())),
        };
        let agreed = x25519_ephemeral_agree(&peer_public);
        let ephemeral_pubkey = agreed.public;
        let shared = agreed.shared;
        let info: Vec<u8> = vec![109u8, 117, 114, 109, 117, 114, 45, 109, 115, 103, 45, 118, 49];
        assert(info@ == message_info());
        let static_shared = x25519_agree(&self.static_secret, &peer_public);
        let key = match hkdf_sha256_expand32(Some(static_shared.as_slice()), shared.as_slice(), info.as_slice()) {
            Some(k) => k,
            None => return Err(CryptoError::KeyDerivation),
        };
        let nonce = random_nonce();
        let ciphertext = match aes256_gcm_encrypt(&key, &nonce, plaintext) {
            Some(c) => c,
            None => return Err(CryptoError::Encryption),
        };
        Ok(EncryptedEnvelope { ephemeral_pubkey, nonce, ciphertext, sender_pubkey: self.public_key })
    }

    /// Decrypts a direct message sent to us: the key is derived from the
    /// shared secrets of our static key with the envelope's ephemeral key and
    /// with the sender key it names.
    pub fn decrypt_envelope(&self, envelope: &EncryptedEnvelope) -> (r: Result<Vec<u8>, CryptoError>)
        ensures
            self.decrypt_envelope_post(*envelope, r),
    {
        proof { use_type_invariant(self); }
        let shared = x25519_agree(&self.static_secret, &envelope.ephemeral_pubkey);
        let static_shared = x25519_agree(&self.static_secret, &envelope.sender_pubkey);
        let info: Vec<u8> = vec![109u8, 117, 114, 109, 117, 114, 45, 109, 115, 103, 45, 118, 49];
        assert(info@ == message_info());
        let key = match hkdf_sha256_expand32(Some(static_shared.as_slice()), shared.as_slice(), info.as_slice()) {
            Some(k) => k,
            None => return Err(CryptoError::KeyDerivation),
        };
        match aes256_gcm_decrypt(&key, &envelope.nonce, envelope.ciphertext.as_slice()) {
            Some(p) => Ok(p),
            None => Err(CryptoError::Decryption),
        }
    }

    /// The group key of a channel topic: HKDF-SHA256 with the topic's UTF-8
    /// bytes as salt, `murmur-group-v1` as input keying material and
    /// `group-key` as info. Every member derives the same key.
    pub fn derive_group_key(&self, topic: &str) -> (r: Result<[u8; 32], CryptoError>)
        ensures
            r matches Ok(k) && k@ == group_key_of(topic@),
    {
        let ikm: Vec<u8> = vec![109u8, 117, 114, 109, 117, 114, 45, 103, 114, 111, 117, 112, 45, 118, 49];
        let info: Vec<u8> = vec![103u8, 114, 111, 117, 112, 45, 107, 101, 121];
        assert(ikm@ == group_ikm());
        assert(info@ == group_info());
        match hkdf_sha256_expand32(Some(topic.as_bytes()), ikm.as_slice(), info.as_slice()) {
            Some(k) => Ok(k),
            None => Err(CryptoError::KeyDerivation),
        }
    }

    /// Encrypts a message for a group channel with the topic's group key and a
    /// random nonce. Fails only for a plaintext AES-GCM refuses.
    pub fn encrypt_for_group(&self, topic: &str, plaintext: &[u8]) -> (r: Result<EncryptedEnvelope, CryptoError>)
        ensures
            plaintext@.len() > aes_gcm_max_plaintext() <==> r is Err,
            r matches Err(e) ==> e is Encryption,
            r matches Ok(env) ==> is_group_envelope(env, self.public(), topic@, plaintext@),
    {
        let key = match self.derive_group_key(topic) {
            Ok(k) => k,
            Err(e) => return Err(e),
        };
        let nonce = random_nonce();
        let ciphertext = match aes256_gcm_encrypt(&key, &nonce, plaintext) {
            Some(c) => c,
            None => return Err(CryptoError::Encryption),
        };
        let zeros = [0u8; 32];
        assert(zeros@ =~= Seq::new(32, |i: int| 0u8));
        Ok(EncryptedEnvelope { ephemeral_pubkey: zeros, nonce, ciphertext, sender_pubkey: self.public_key })
    }

    /// Decrypts a group message with the topic's group key.
    pub fn decrypt_group(&self, topic: &str, envelope: &EncryptedEnvelope) -> (r: Result<Vec<u8>, CryptoError>)
        ensures
            match group_open(topic@, *envelope) {
                Some(p) => r matches Ok(v) && v@ == p,
                None => r matches Err(e) && e is Decryption,
            },
    {
        let key = match self.derive_group_key(topic) {
            Ok(k) => k,
            Err(e) => return Err(e),
        };
        match aes256_gcm_decrypt(&key, &envelope.nonce, envelope.ciphertext.as_slice()) {
            Some(p) => Ok(p),
            None => Err(CryptoError::Decryption),
        }
    }

    /// Our public key, for sharing with peers.
    pub fn public_key_bytes(&self) -> (r: [u8; 32])
        ensures
            r@ == self.public(),
            self.public() == x25519_public(self.secret()),
            self.secret().len() == 32,
    {
        proof { use_type_invariant(self); }
        self.public_key
    }
}

/// The 32 bytes of a 32-byte slice.
fn to_array32(b: &[u8]) -> (r: [u8; 32])
    requires
        b@.len() == 32,
    ensures
        r@ == b@,
{
    let mut a = [0u8; 32];
    let mut i: usize = 0;
    while i < 32
        invariant
            i <= 32,
            b@.len() == 32,
            forall|j: int| 0 <= j < i ==> a@[j] == b@[j],
        decreases 32 - i,
    {
        a[i] = b[i];
        i = i + 1;
    }
    assert(a@ =~= b@);
    a
}

} // verus!
