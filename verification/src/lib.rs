//! The KYC backend's verified core: request-signature checking, configuration and its
//! variable expansion, identifiers, and the rules of the staff flow API.

pub mod api;
pub mod config;
pub mod envsubst;
pub mod ids;
pub mod order;
pub mod signature;
pub mod staff;
pub mod text;
pub mod user;
