//! Client core for a music-tracking web API: signed-request authentication,
//! paginated fetching with bounded retry, normalization of loosely-typed
//! responses into strict records, and an idempotent persistence sink.

pub mod api;
pub mod fetch;
pub mod normalize;
pub mod serialize;
pub mod sign;
pub mod sql;
pub mod text;
