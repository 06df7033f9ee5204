//! The resolved startup configuration and the bootstrap decisions derived
//! from it. Loading and merging (environment plus file) is external
//! plumbing; the core receives one resolved value and consults nothing else
//! at runtime.

use vstd::prelude::*;

verus! {

/// The read-only process-wide configuration, fixed at startup.
pub struct ZKConfig {
    /// Where the document tree lives on disk; consumed by the working-tree
    /// collaborator, never consulted by the core's logic.
    pub root: String,
    /// Mount point of the document API.
    pub path: String,
    /// Whether cross-origin requests are answered.
    pub cors: bool,
    /// The one origin allowed when `cors` is on.
    pub cors_origin: Option<String>,
    /// Whether startup must fail when the document root is not an
    /// initialized version-control working tree.
    pub repository: bool,
}

/// Why a configuration cannot be acted on.
#[derive(Clone, Copy, Debug, PartialEq, Eq, Structural)]
pub enum ConfigError {
    /// `cors` is on but no allowed origin was configured.
    MissingCorsOrigin,
}

/// What the bootstrap mounts, decided once from the configuration.
pub struct MountPlan {
    /// The origin to answer preflight requests for, when CORS is on.
    pub cors_origin: Option<String>,
    /// Whether the static application routes are mounted instead.
    pub serve_static: bool,
    /// Where the document API routes are mounted.
    pub api_mount: String,
    /// Passed through: whether the working tree must already be a
    /// repository at startup.
    pub require_repository: bool,
}

/// Turns the configuration into the bootstrap's mounting decisions: with
/// CORS on, the preflight routes for the configured origin; with CORS off,
/// the static application routes; either way the API mounts at the
/// configured path. CORS without an origin is refused rather than guessed.
pub fn parse_options(config: ZKConfig) -> (r: Result<MountPlan, ConfigError>)
    ensures
        (r is Ok) == (!config.cors || config.cors_origin is Some),
        r matches Err(e) ==> e == ConfigError::MissingCorsOrigin && config.cors
            && config.cors_origin is None,
        r matches Ok(p) ==> p.api_mount@ == config.path@ && p.require_repository
            == config.repository && p.serve_static == !config.cors && (config.cors
            ==> p.cors_origin == config.cors_origin) && (!config.cors
            ==> p.cors_origin is None),
{
    if config.cors {
        match config.cors_origin {
            Option::None => Result::Err(ConfigError::MissingCorsOrigin),
            Option::Some(origin) => Result::Ok(
                MountPlan {
                    cors_origin: Option::Some(origin),
                    serve_static: false,
                    api_mount: config.path,
                    require_repository: config.repository,
                },
            ),
        }
    } else {
        Result::Ok(
            MountPlan {
                cors_origin: Option::None,
                serve_static: true,
                api_mount: config.path,
                require_repository: config.repository,
            },
        )
    }
}

} // verus!
