//! The node's persistent identity: the libp2p keypair whose peer id names
//! us. Reading and writing the key file is the caller's; this module
//! decides whether the stored key is used or a fresh one made.
use vstd::prelude::*;
use libp2p::identity::Keypair;

verus! {

#[verifier::external_type_specification]
#[verifier::external_body]
pub struct ExKeypair(libp2p::identity::Keypair);

/// Whether `Keypair::from_protobuf_encoding` accepts the bytes of a key
/// file.
pub uninterp spec fn keypair_decodes(bytes: Seq<u8>) -> bool;

/// The text form of the peer id (`kp.public().to_peer_id().to_string()`)
/// of the keypair that `Keypair::from_protobuf_encoding` reads from these
/// key-file bytes.
pub uninterp spec fn key_file_peer_id(bytes: Seq<u8>) -> Seq<char>;

/// `Keypair::from_protobuf_encoding`, with the text form of the decoded
/// keypair's peer id; the decoding error becomes `None`. Whether it succeeds,
/// and the peer id, depend on the bytes alone; nothing more is stated of the
/// keypair.
#[verifier::external_body]
fn decode_keypair(bytes: &[u8]) -> (r: Option<(Keypair, String)>)
    ensures
        r is Some <==> keypair_decodes(bytes@),
        r matches Some((_, id)) ==> id@ == key_file_peer_id(bytes@),
{
    match Keypair::from_protobuf_encoding(bytes) {
        Ok(kp) => {
            let id = kp.public().to_peer_id().to_string();
            Some((kp, id))
        },
        Err(_) => None,
    }
}

/// The Ed25519 public key, as its 32 bytes, of the keypair that
/// `Keypair::from_protobuf_encoding` reads from these key-file bytes; `None`
/// when they do not decode or hold a keypair of another kind.
pub uninterp spec fn key_file_ed25519_public(bytes: Seq<u8>) -> Option<Seq<u8>>;

/// `Keypair::from_protobuf_encoding`, then `try_into_ed25519` and the
/// public key's `to_bytes`; a failure of either step becomes `None`.
#[verifier::external_body]
fn decode_ed25519_public(bytes: &[u8]) -> (r: Option<[u8; 32]>)
    ensures
        match r {
            Some(p) => key_file_ed25519_public(bytes@) == Some(p@),
            None => key_file_ed25519_public(bytes@) is None,
        },
{
    match Keypair::from_protobuf_encoding(bytes) {
        Ok(kp) => match kp.try_into_ed25519() {
            Ok(ed) => Some(ed.public().to_bytes()),
            Err(_) => None,
        },
        Err(_) => None,
    }
}

/// `Keypair::generate_ed25519` followed by `to_protobuf_encoding`: the key
/// file of a fresh random Ed25519 keypair. The crate encodes an Ed25519
/// keypair as its 64 keypair bytes under the Ed25519 key type, which never
/// fails, and reads those bytes back as the same Ed25519 keypair; which
/// keypair it is, is not stated.
#[verifier::external_body]
fn generate_key_file() -> (r: Option<Vec<u8>>)
    ensures
        r is Some,
        keypair_decodes(r->0@),
        key_file_ed25519_public(r->0@) is Some,
{
    Keypair::generate_ed25519().to_protobuf_encoding().ok()
}

/// The node's keypair, with the text form of its peer id and its Ed25519
/// public key.
pub struct Identity {
    keypair: Keypair,
    peer_id: String,
    public_key: [u8; 32],
}

/// The public key bytes an identity read from key-file bytes reports: the
/// Ed25519 public key, or zeros for a keypair of another kind.
pub open spec fn public_key_or_zeros(bytes: Seq<u8>) -> Seq<u8> {
    match key_file_ed25519_public(bytes) {
        Some(p) => p,
        None => Seq::new(32, |i: int| 0u8),
    }
}

/// What `Identity::load_or_create` gives for the stored key-file bytes: the
/// stored keypair when they decode, with nothing to save; otherwise (no
/// file, or a corrupt one) a fresh Ed25519 keypair with the key-file bytes to
/// save, which read back to the same keypair. Either way the identity's peer
/// id and public key are those of the key file it stands for.
pub open spec fn loaded_from(stored: Option<Seq<u8>>, id: Identity, fresh: Option<Seq<u8>>) -> bool {
    let file = match stored {
        Some(b) if keypair_decodes(b) => b,
        _ => fresh->0,
    };
    &&& match stored {
        Some(b) if keypair_decodes(b) => fresh is None,
        _ => fresh matches Some(f) && keypair_decodes(f) && key_file_ed25519_public(f) is Some,
    }
    &&& id.peer_id_spec() == key_file_peer_id(file)
    &&& id.public_key_spec() == public_key_or_zeros(file)
}

/// The identity stays the same across restarts: an identity made fresh, and
/// the one made again from the key-file bytes it gave to save, have the same
/// peer id and the same Ed25519 public key, and nothing is saved again.
pub proof fn lemma_identity_stable(first: Identity, saved: Seq<u8>, again: Identity, fresh_again: Option<Seq<u8>>)
    requires
        loaded_from(None, first, Some(saved)),
        loaded_from(Some(saved), again, fresh_again),
    ensures
        fresh_again is None,
        again.peer_id_spec() == first.peer_id_spec(),
        again.public_key_spec() == first.public_key_spec(),
        key_file_ed25519_public(saved) == Some(first.public_key_spec()),
{
}

impl Identity {
    /// The keypair.
    pub closed spec fn keypair_spec(self) -> Keypair {
        self.keypair
    }

    /// The text form of the peer id.
    pub closed spec fn peer_id_spec(self) -> Seq<char> {
        self.peer_id@
    }

    /// The Ed25519 public key bytes (zeros for a keypair of another kind).
    pub closed spec fn public_key_spec(self) -> Seq<u8> {
        self.public_key@
    }

    /// The identity read from key-file bytes, if they decode.
    fn from_key_file(bytes: &[u8]) -> (r: Option<Identity>)
        ensures
            r is Some <==> keypair_decodes(bytes@),
            r matches Some(id) ==> id.peer_id_spec() == key_file_peer_id(bytes@)
                && id.public_key_spec() == public_key_or_zeros(bytes@),
    {
        let (keypair, peer_id) = match decode_keypair(bytes) {
            Some(d) => d,
            None => return None,
        };
        let public_key = match decode_ed25519_public(bytes) {
            Some(p) => p,
            None => {
                let zeros = [0u8; 32];
                assert(zeros@ =~= Seq::new(32, |i: int| 0u8));
                zeros
            },
        };
        Some(Identity { keypair, peer_id, public_key })
    }

    /// The identity from the stored key file's bytes, if any: the stored
    /// keypair when they decode; otherwise (no file, or a corrupt one) a
    /// fresh Ed25519 keypair, as its encoding reads back, returned with that
    /// encoding to be saved.
    pub fn load_or_create(stored: Option<Vec<u8>>) -> (r: (Identity, Option<Vec<u8>>))
        ensures
            loaded_from(
                match stored { Some(b) => Some(b@), None => None },
                r.0,
                match r.1 { Some(f) => Some(f@), None => None },
            ),
    {
        if let Some(b) = &stored {
            if let Some(identity) = Identity::from_key_file(b.as_slice()) {
                return (identity, None);
            }
        }
        let bytes = generate_key_file().unwrap();
        let identity = Identity::from_key_file(bytes.as_slice()).unwrap();
        (identity, Some(bytes))
    }

    /// The keypair.
    pub fn keypair(&self) -> (r: &Keypair)
        ensures
            *r == self.keypair_spec(),
    {
        &self.keypair
    }

    /// Our peer id, in its text form.
    pub fn peer_id_text(&self) -> (r: String)
        ensures
            r@ == self.peer_id_spec(),
    {
        self.peer_id.clone()
    }

    /// Our Ed25519 public key bytes, or zeros for a keypair of another kind.
    pub fn public_key_bytes(&self) -> (r: [u8; 32])
        ensures
            r@ == self.public_key_spec(),
    {
        self.public_key
    }
}

} // verus!
