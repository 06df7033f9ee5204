//! Secret and token engine: a process-lifetime random secret, keyed tags
//! over token messages, and constant-time verification.

use vstd::prelude::*;
use crate::bytes::concat_bytes;
use crate::bytes::ct_eq;
use hmac::Hmac;
use hmac::Mac;
use crypto_hashes::sha2::Sha256;

verus! {

/// Length in bytes of a tag (the HMAC-SHA-256 output) and of the secret key.
pub const TAG_LEN: usize = 32;

/// The keyed tag that HMAC-SHA-256 assigns to a message. The algorithm is a
/// pure function of key and message; its pages-long definition is not
/// restated here, only named.
pub uninterp spec fn hmac_sha256(key: Seq<u8>, msg: Seq<u8>) -> Seq<u8>;

/// Relies on hmac::Hmac combined with crypto_hashes::sha2::Sha256
/// (HMAC-SHA-256): the tag is a deterministic function of the key and the
/// message alone, always 32 bytes long, and keys of any length are accepted.
#[verifier::external_body]
fn hmac_tag(key: &Vec<u8>, msg: &Vec<u8>) -> (r: Vec<u8>)
    ensures
        r@ == hmac_sha256(key@, msg@),
        r@.len() == TAG_LEN,
{
    let mut mac = <Hmac<Sha256> as Mac>::new_from_slice(key.as_slice())
        .expect("HMAC accepts a key of any length");
    mac.update(msg.as_slice());
    mac.finalize().into_bytes().to_vec()
}

/// Relies on rand::random (thread-local generator): fills an array with 32
/// random bytes. Nothing is promised of the values, only the length.
#[verifier::external_body]
fn random_key_bytes() -> (r: Vec<u8>)
    ensures
        r@.len() == TAG_LEN,
{
    let raw: [u8; 32] = rand::random();
    raw.to_vec()
}

/// The process-lifetime secret key. Generated once at startup, never
/// persisted; restarting the process rotates it and thereby invalidates
/// every outstanding token.
pub struct Secret {
    key: Vec<u8>,
}

impl Secret {
    /// The key bytes, visible to specifications only.
    pub closed spec fn key(&self) -> Seq<u8> {
        self.key@
    }

    /// A well-formed secret holds a full-length key.
    pub open spec fn wf(&self) -> bool {
        self.key().len() == TAG_LEN
    }

    /// Draws a fresh random secret. Obtaining randomness is the one step the
    /// process may not start without; the generator used here aborts rather
    /// than returning weak output.
    pub fn generate() -> (s: Secret)
        ensures
            s.wf(),
    {
        Secret { key: random_key_bytes() }
    }
}

/// Whether a presented tag is the one the key assigns to the message: the
/// token validity invariant.
pub open spec fn spec_verifies(key: Seq<u8>, msg: Seq<u8>, tag: Seq<u8>) -> bool {
    tag == hmac_sha256(key, msg)
}

/// Computes the tag for a message under the secret.
pub fn compute_tag(secret: &Secret, message: &Vec<u8>) -> (tag: Vec<u8>)
    ensures
        tag@ == hmac_sha256(secret.key(), message@),
        tag@.len() == TAG_LEN,
{
    hmac_tag(&secret.key, message)
}

/// Recomputes the tag and compares in constant time: the comparison looks at
/// every byte whatever the position of the first difference, so timing does
/// not leak how long a forged prefix matched.
pub fn verify(secret: &Secret, message: &Vec<u8>, tag: &Vec<u8>) -> (r: bool)
    ensures
        r == spec_verifies(secret.key(), message@, tag@),
{
    let expected = hmac_tag(&secret.key, message);
    ct_eq(tag, &expected)
}

/// The wire shape of a token: the fixed-width tag followed by the message.
pub open spec fn spec_token(tag: Seq<u8>, msg: Seq<u8>) -> Seq<u8> {
    tag + msg
}

/// Issues a token for a message: the message's tag, then the message itself.
/// The tag part is fixed-width, so no client-supplied message can collide
/// with the encoding of a different message.
pub fn issue_token(secret: &Secret, message: &Vec<u8>) -> (t: Vec<u8>)
    ensures
        t@ == spec_token(hmac_sha256(secret.key(), message@), message@),
        t@.len() == TAG_LEN + message@.len(),
{
    let tag = compute_tag(secret, message);
    concat_bytes(&tag, message)
}

/// Token round-trip: the tag computed over a message under a key verifies
/// under that same key and message.
pub proof fn lemma_token_round_trip(key: Seq<u8>, message: Seq<u8>)
    ensures
        spec_verifies(key, message, hmac_sha256(key, message)),
{
}

/// Forgery resistance: flipping any single bit of a valid tag yields a tag
/// that verification rejects.
pub proof fn lemma_bit_flip_rejected(
    key: Seq<u8>,
    message: Seq<u8>,
    tag: Seq<u8>,
    forged: Seq<u8>,
    i: int,
    bit: u8,
)
    requires
        spec_verifies(key, message, tag),
        0 <= i < tag.len(),
        bit < 8,
        forged.len() == tag.len(),
        forged[i] == tag[i] ^ (1u8 << bit),
        forall|j: int| 0 <= j < tag.len() && j != i ==> forged[j] == tag[j],
    ensures
        !spec_verifies(key, message, forged),
{
    let t = tag[i];
    let b = bit;
    assert((t ^ (1u8 << b)) != t) by (bit_vector)
        requires
            b < 8,
    ;
    assert(forged[i] != tag[i]);
}

} // verus!
