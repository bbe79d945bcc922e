//! A small multi-tenant door-registry backend, verified.
//!
//! Users register "doors" (access-control devices carrying an opaque JSON
//! payload), hold ownership links to them, and store per-user vendor
//! credentials (token/openid pairs). Opening a door checks the caller's
//! ownership link, loads the door and a usable credential, and hands back
//! everything an HTTP layer needs to forward the vendor call; the vendor's
//! outcome is then folded into the final result. All decisions — scoping,
//! ordering, error selection — live here with contracts; transport,
//! rendering and token validation stay outside.

pub mod browser_auth;
pub mod door;
pub mod oct_conf;
pub mod store;
