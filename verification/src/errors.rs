//! Error taxonomy of the service core.

use vstd::prelude::*;

verus! {

/// Why a request failed authorization. Externally all three map to the same
/// uniform rejection; the distinction exists for internal reporting only.
#[derive(Clone, Copy, Debug, PartialEq, Eq, Structural)]
pub enum AuthError {
    /// No token was presented at all.
    MissingToken,
    /// A token was presented but cannot be decoded into message and tag.
    MalformedToken,
    /// The token decoded cleanly but its tag does not verify.
    InvalidToken,
}

/// Why a document-store operation failed. These are deterministic and
/// caller-correctable.
#[derive(Clone, Copy, Debug, PartialEq, Eq, Structural)]
pub enum StoreError {
    /// The document does not exist.
    NotFound,
    /// A create targeted an occupied path; nothing was overwritten.
    AlreadyExists,
    /// A patch could not be applied cleanly against the current content.
    PatchConflict,
    /// The path would resolve outside the configured root; nothing was touched.
    PathEscapesRoot,
}

/// The outcome classes a mutating API call can report.
#[derive(Clone, Copy, Debug, PartialEq, Eq, Structural)]
pub enum ApiError {
    /// The request never passed the guard; no store or history effect.
    Auth(AuthError),
    /// The store refused the operation; no store or history effect.
    Store(StoreError),
    /// The document mutation succeeded but recording the commit did not:
    /// content and history have diverged, which is reported distinctly and
    /// never masked as plain success or plain failure.
    CommitFailed,
}

} // verus!
