//! The seam the per-verb handlers consume: authorize first, mutate after.
//! No store or history effect happens unless the guard accepts the token.

use vstd::prelude::*;
use crate::errors::ApiError;
use crate::errors::AuthError;
use crate::guard::authorize;
use crate::guard::spec_authorize;
use crate::guard::token_view;
use crate::repo::Adapter;
use crate::repo::AdapterView;
use crate::repo::Op;
use crate::repo::OpView;
use crate::repo::adapter_apply;
use crate::tokens::Secret;

verus! {

/// The outcome of a guarded mutating call: rejection by the guard leaves
/// the state untouched; an accepted call runs the adapter protocol.
pub open spec fn spec_handle(
    key: Seq<u8>,
    token: Option<Seq<u8>>,
    v: AdapterView,
    p: Seq<u8>,
    op: OpView,
    backend_ok: bool,
) -> (AdapterView, Result<(), ApiError>) {
    match spec_authorize(key, token) {
        Result::Err(e) => (v, Result::Err(ApiError::Auth(e))),
        Result::Ok(_) => adapter_apply(v, p, op, backend_ok),
    }
}

/// Runs one mutating API call: the guard decides on the presented token
/// before the store or the history is touched at all.
pub fn handle_mutation(
    secret: &Secret,
    token: Option<&Vec<u8>>,
    adapter: &mut Adapter,
    path: &Vec<u8>,
    op: Op,
    backend_ok: bool,
) -> (r: Result<(), ApiError>)
    requires
        old(adapter).wf(),
    ensures
        final(adapter).wf(),
        (final(adapter)@, r) == spec_handle(
            secret.key(),
            token_view(token),
            old(adapter)@,
            path@,
            op@,
            backend_ok,
        ),
{
    match authorize(secret, token) {
        Result::Err(e) => Result::Err(ApiError::Auth(e)),
        Result::Ok(_grant) => adapter.apply(path, op, backend_ok),
    }
}

/// A request the guard rejects performs no store or history effect: the
/// state after the call is exactly the state before it.
pub proof fn lemma_unauthorized_no_effect(
    key: Seq<u8>,
    token: Option<Seq<u8>>,
    v: AdapterView,
    p: Seq<u8>,
    op: OpView,
    backend_ok: bool,
)
    requires
        spec_authorize(key, token) is Err,
    ensures
        spec_handle(key, token, v, p, op, backend_ok).0 == v,
        spec_handle(key, token, v, p, op, backend_ok).1 is Err,
{
}

} // verus!
