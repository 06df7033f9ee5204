//! Request authorization guard: decodes a presented bearer token into its
//! message and tag and asks the token engine to verify it. Purely functional
//! over the secret and the token; no state is mutated.

use vstd::prelude::*;
use vstd::slice::slice_subrange;
use vstd::slice::slice_to_vec;
use crate::errors::AuthError;
use crate::tokens::Secret;
use crate::tokens::TAG_LEN;
use crate::tokens::hmac_sha256;
use crate::tokens::spec_verifies;
use crate::tokens::verify;

verus! {

/// Proof of a passed authorization check; only this module constructs it.
pub struct Authorized {
    granted: (),
}

/// A token decodes iff it is long enough to hold the fixed-width tag.
pub open spec fn token_well_formed(t: Seq<u8>) -> bool {
    t.len() >= TAG_LEN
}

/// The fixed-width tag part of a token.
pub open spec fn token_tag(t: Seq<u8>) -> Seq<u8> {
    t.subrange(0, TAG_LEN as int)
}

/// The message part of a token: everything after the tag.
pub open spec fn token_message(t: Seq<u8>) -> Seq<u8> {
    t.subrange(TAG_LEN as int, t.len() as int)
}

/// The guard's decision over a presented token, or its absence. All three
/// error cases map to one uniform external rejection; the variant records
/// the internal reason only.
pub open spec fn spec_authorize(key: Seq<u8>, token: Option<Seq<u8>>) -> Result<(), AuthError> {
    match token {
        Option::None => Result::Err(AuthError::MissingToken),
        Option::Some(t) => {
            if !token_well_formed(t) {
                Result::Err(AuthError::MalformedToken)
            } else if spec_verifies(key, token_message(t), token_tag(t)) {
                Result::Ok(())
            } else {
                Result::Err(AuthError::InvalidToken)
            }
        },
    }
}

/// The view of an optionally presented token.
pub open spec fn token_view(token: Option<&Vec<u8>>) -> Option<Seq<u8>> {
    match token {
        Option::None => Option::None,
        Option::Some(t) => Option::Some(t@),
    }
}

/// Gates a request: absence of a token, a token too short to decode, and a
/// token whose tag does not verify are each rejected; only a token carrying
/// the exact tag of its message under the current secret is accepted.
pub fn authorize(secret: &Secret, token: Option<&Vec<u8>>) -> (r: Result<Authorized, AuthError>)
    ensures
        (r is Ok) == (spec_authorize(secret.key(), token_view(token)) is Ok),
        r matches Err(e) ==> spec_authorize(secret.key(), token_view(token))
            == Result::<(), AuthError>::Err(e),
{
    match token {
        Option::None => Result::Err(AuthError::MissingToken),
        Option::Some(t) => {
            if t.len() < TAG_LEN {
                Result::Err(AuthError::MalformedToken)
            } else {
                let tag: Vec<u8> = slice_to_vec(slice_subrange(t.as_slice(), 0, TAG_LEN));
                let msg: Vec<u8> = slice_to_vec(slice_subrange(t.as_slice(), TAG_LEN, t.len()));
                if verify(secret, &msg, &tag) {
                    Result::Ok(Authorized { granted: () })
                } else {
                    Result::Err(AuthError::InvalidToken)
                }
            }
        },
    }
}

/// A token issued over a message by the engine is accepted by the guard
/// under the same secret: the round trip through the wire encoding.
pub proof fn lemma_issued_token_authorizes(key: Seq<u8>, message: Seq<u8>, tag: Seq<u8>)
    requires
        tag == hmac_sha256(key, message),
        tag.len() == TAG_LEN,
    ensures
        spec_authorize(key, Option::Some(tag + message)) is Ok,
{
    let t = tag + message;
    assert(token_tag(t) =~= tag);
    assert(token_message(t) =~= message);
}

} // verus!
