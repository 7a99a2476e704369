//! A verified client core for a music-tracking web API: request flattening,
//! parameter signing, response decoding, and the credential bootstrap
//! protocol, together with the decision logic of the presence-polling loop.

pub mod api;
pub mod bootstrap;
pub mod config;
pub mod credential;
pub mod error;
pub mod json;
pub mod pairs;
pub mod params;
pub mod poll;
pub mod responses;
pub mod shim;
pub mod sign;
pub mod text;
