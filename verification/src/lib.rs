//! Signed attribute records ("passports") and channel histories, rebuilt from
//! a stream of signed blocks.
//!
//! The crate holds the rules only: the wire form of actions and blocks, the
//! fingerprint by which redelivery is noticed, and the engine that decides
//! whether a block is applied. Signatures are made and checked by the caller,
//! who hands each outcome to the function that is about to rely on it.

pub mod digest;
pub mod equal;
pub mod history;
pub mod json;
pub mod keys;
pub mod passport;
