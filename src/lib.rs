//! Threshold blind signatures for a federated e-cash mint, and the
//! denomination-tiered container that groups mint keys by coin value.
pub mod curve;
pub mod encoding;
pub mod field;
pub mod incoming;
pub mod tbs;
pub mod tiered;
