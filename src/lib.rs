//! A trust-chain server core: identities with replay-protected nonces, trust
//! edges that carry encrypted secrets, and the DAG of degree proofs built over
//! those edges.

pub mod credential;
pub mod crypto;
pub mod model;
pub mod grapevine;
pub mod laws;
